//! The command line: its grammar and a parser for it.
//!
//! ```text
//! envoyctl [--config-dir <DIR>] [--out-dir <DIR>] [--install-path <PATH>]
//!          [--envoy-bin <BIN>] <init [--dir <DIR>] | build | validate>
//! ```
//!
//! An option takes its value from the next argument or, behind `=`, from its
//! own. Each option may be given once, and the options of the program stand
//! before the subcommand.

use crate::text::str_eq;
use std::path::PathBuf;
use vstd::prelude::*;
use vstd::string::StrSliceExecFns;

verus! {

/// `std::path::PathBuf`, an owned file-system path.
#[verifier::external_type_specification]
#[verifier::external_body]
pub struct ExPathBuf(PathBuf);

/// The text that a path was made from.
pub uninterp spec fn path_text(p: PathBuf) -> Seq<char>;

/// `PathBuf::from` on a string: the path with that text.
#[verifier::external_body]
fn path_from(text: &str) -> (p: PathBuf)
    ensures
        path_text(p) == text@,
{
    PathBuf::from(text)
}

/// The parsed command line.
#[derive(Debug)]
pub struct Cli {
    /// Root config directory (holds common/, domains/, upstreams/, policies/).
    pub config_dir: PathBuf,
    /// Output directory for the generated document.
    pub out_dir: PathBuf,
    /// Where the generated document is installed.
    pub install_path: PathBuf,
    /// Name or path of the proxy binary, for native validation.
    pub envoy_bin: Option<String>,
    pub cmd: Command,
}

/// The subcommand.
#[derive(Debug)]
pub enum Command {
    /// Create a starter workspace in the given directory.
    Init { dir: PathBuf },
    Build,
    Validate,
}

/// Why a command line was not accepted.
#[derive(Debug)]
pub enum UsageError {
    /// Help was asked for.
    HelpRequested,
    /// The version was asked for.
    VersionRequested,
    /// The command line ends without a subcommand.
    MissingSubcommand,
    /// A word in the place of the subcommand that is none.
    UnknownSubcommand { word: String },
    /// An option that the grammar does not have in this place.
    UnknownArgument { argument: String },
    /// A word behind a complete subcommand.
    UnexpectedArgument { argument: String },
    /// An option without its value.
    MissingValue { option: String },
    /// A path option with an empty value.
    EmptyValue { option: String },
    /// An option that was given before.
    DuplicateOption { option: String },
}

/* ---------------- the grammar ---------------- */

/// A subcommand as a mathematical value.
pub enum CommandView {
    Init { dir: Seq<char> },
    Build,
    Validate,
}

/// A parsed command line as a mathematical value.
pub struct CliView {
    pub config_dir: Seq<char>,
    pub out_dir: Seq<char>,
    pub install_path: Seq<char>,
    pub envoy_bin: Option<Seq<char>>,
    pub cmd: CommandView,
}

/// A usage error as a mathematical value.
pub enum Usage {
    HelpRequested,
    VersionRequested,
    MissingSubcommand,
    UnknownSubcommand { word: Seq<char> },
    UnknownArgument { argument: Seq<char> },
    UnexpectedArgument { argument: Seq<char> },
    MissingValue { option: Seq<char> },
    EmptyValue { option: Seq<char> },
    DuplicateOption { option: Seq<char> },
}

/// The options of the program that were read so far.
pub struct Globals {
    pub config_dir: Option<Seq<char>>,
    pub out_dir: Option<Seq<char>>,
    pub install_path: Option<Seq<char>>,
    pub envoy_bin: Option<Seq<char>>,
}

impl View for Command {
    type V = CommandView;

    open spec fn view(&self) -> CommandView {
        match self {
            Command::Init { dir } => CommandView::Init { dir: path_text(*dir) },
            Command::Build => CommandView::Build,
            Command::Validate => CommandView::Validate,
        }
    }
}

impl View for Cli {
    type V = CliView;

    open spec fn view(&self) -> CliView {
        CliView {
            config_dir: path_text(self.config_dir),
            out_dir: path_text(self.out_dir),
            install_path: path_text(self.install_path),
            envoy_bin: match self.envoy_bin {
                Some(b) => Some(b@),
                None => None,
            },
            cmd: self.cmd@,
        }
    }
}

impl View for UsageError {
    type V = Usage;

    open spec fn view(&self) -> Usage {
        match self {
            UsageError::HelpRequested => Usage::HelpRequested,
            UsageError::VersionRequested => Usage::VersionRequested,
            UsageError::MissingSubcommand => Usage::MissingSubcommand,
            UsageError::UnknownSubcommand { word } => Usage::UnknownSubcommand { word: word@ },
            UsageError::UnknownArgument { argument } => Usage::UnknownArgument {
                argument: argument@,
            },
            UsageError::UnexpectedArgument { argument } => Usage::UnexpectedArgument {
                argument: argument@,
            },
            UsageError::MissingValue { option } => Usage::MissingValue { option: option@ },
            UsageError::EmptyValue { option } => Usage::EmptyValue { option: option@ },
            UsageError::DuplicateOption { option } => Usage::DuplicateOption { option: option@ },
        }
    }
}

/// The result of parsing as a mathematical value.
pub open spec fn result_view(r: Result<Cli, UsageError>) -> Result<CliView, Usage> {
    match r {
        Ok(cli) => Ok(cli@),
        Err(e) => Err(e@),
    }
}

/// Whether an argument starts with a hyphen.
pub open spec fn starts_with_hyphen(t: Seq<char>) -> bool {
    t.len() > 0 && t[0] == '-'
}

/// Whether an argument reads as an option and so cannot be the value of
/// one. A hyphen alone is a value.
pub open spec fn looks_like_option(t: Seq<char>) -> bool {
    t.len() >= 2 && t[0] == '-'
}

/// Whether an argument is the option `name` with its value behind `=`.
pub open spec fn is_inline(t: Seq<char>, name: Seq<char>) -> bool {
    t.len() > name.len() && t.subrange(0, name.len() as int) == name && t[name.len() as int] == '='
}

/// How argument `i` reads as the option `name`.
pub enum Taken {
    /// The argument is not this option.
    Other,
    /// The option stands without a value.
    Missing,
    /// The option has this value, and parsing goes on at argument `next`.
    Value { value: Seq<char>, next: int },
}

/// How argument `i` reads as the option `name`: the value is the next
/// argument unless that one reads as an option, or what stands behind `=`.
pub open spec fn take_value(tokens: Seq<Seq<char>>, i: int, name: Seq<char>) -> Taken {
    let t = tokens[i];
    if t == name {
        if i + 1 < tokens.len() && !looks_like_option(tokens[i + 1]) {
            Taken::Value { value: tokens[i + 1], next: i + 2 }
        } else {
            Taken::Missing
        }
    } else if is_inline(t, name) {
        Taken::Value { value: t.subrange(name.len() as int + 1, t.len() as int), next: i + 1 }
    } else {
        Taken::Other
    }
}

/// An option of the program.
#[derive(Clone, Copy, Debug, PartialEq, Eq, Structural)]
pub enum ProgramOption {
    ConfigDir,
    OutDir,
    InstallPath,
    EnvoyBin,
}

impl ProgramOption {
    /// The option as it is written.
    pub open spec fn name(self) -> Seq<char> {
        match self {
            ProgramOption::ConfigDir => "--config-dir"@,
            ProgramOption::OutDir => "--out-dir"@,
            ProgramOption::InstallPath => "--install-path"@,
            ProgramOption::EnvoyBin => "--envoy-bin"@,
        }
    }

    /// Whether the value of the option is a path, which cannot be empty.
    pub open spec fn is_path(self) -> bool {
        self != ProgramOption::EnvoyBin
    }
}

impl Globals {
    /// The value that was read for an option, if one was.
    pub open spec fn get(self, o: ProgramOption) -> Option<Seq<char>> {
        match o {
            ProgramOption::ConfigDir => self.config_dir,
            ProgramOption::OutDir => self.out_dir,
            ProgramOption::InstallPath => self.install_path,
            ProgramOption::EnvoyBin => self.envoy_bin,
        }
    }

    /// The options with one more value read.
    pub open spec fn set(self, o: ProgramOption, value: Seq<char>) -> Globals {
        match o {
            ProgramOption::ConfigDir => Globals { config_dir: Some(value), ..self },
            ProgramOption::OutDir => Globals { out_dir: Some(value), ..self },
            ProgramOption::InstallPath => Globals { install_path: Some(value), ..self },
            ProgramOption::EnvoyBin => Globals { envoy_bin: Some(value), ..self },
        }
    }
}

/// Whether argument `i` is the option `o`, with or without a value.
pub open spec fn is_option(tokens: Seq<Seq<char>>, i: int, o: ProgramOption) -> bool {
    take_value(tokens, i, o.name()) !is Other
}

/// The option of the program that argument `i` is, if it is one.
pub open spec fn option_at(tokens: Seq<Seq<char>>, i: int) -> Option<ProgramOption> {
    if is_option(tokens, i, ProgramOption::ConfigDir) {
        Some(ProgramOption::ConfigDir)
    } else if is_option(tokens, i, ProgramOption::OutDir) {
        Some(ProgramOption::OutDir)
    } else if is_option(tokens, i, ProgramOption::InstallPath) {
        Some(ProgramOption::InstallPath)
    } else if is_option(tokens, i, ProgramOption::EnvoyBin) {
        Some(ProgramOption::EnvoyBin)
    } else {
        None
    }
}

/// The command line that the options and the subcommand make, with the
/// default of each option that was not given.
pub open spec fn finished(g: Globals, cmd: CommandView) -> CliView {
    CliView {
        config_dir: match g.config_dir {
            Some(v) => v,
            None => "config"@,
        },
        out_dir: match g.out_dir {
            Some(v) => v,
            None => "out"@,
        },
        install_path: match g.install_path {
            Some(v) => v,
            None => "/etc/envoy/envoy.yaml"@,
        },
        envoy_bin: g.envoy_bin,
        cmd,
    }
}

/// What an argument is that no rule of its place accepts.
pub open spec fn rejected(t: Seq<char>) -> Usage {
    if starts_with_hyphen(t) {
        Usage::UnknownArgument { argument: t }
    } else {
        Usage::UnexpectedArgument { argument: t }
    }
}

/// What stands behind `build` or `validate`: nothing.
pub open spec fn parse_bare(tokens: Seq<Seq<char>>, i: int, g: Globals, cmd: CommandView) -> Result<
    CliView,
    Usage,
> {
    if i >= tokens.len() {
        Ok(finished(g, cmd))
    } else if tokens[i] == "-h"@ || tokens[i] == "--help"@ {
        Err(Usage::HelpRequested)
    } else {
        Err(rejected(tokens[i]))
    }
}

/// What stands behind `init`: the directory option, at most once.
pub open spec fn parse_init(
    tokens: Seq<Seq<char>>,
    i: int,
    g: Globals,
    dir: Option<Seq<char>>,
) -> Result<CliView, Usage>
    decreases tokens.len() - i,
{
    if i >= tokens.len() {
        Ok(
            finished(
                g,
                CommandView::Init {
                    dir: match dir {
                        Some(d) => d,
                        None => "envoy-work"@,
                    },
                },
            ),
        )
    } else if tokens[i] == "-h"@ || tokens[i] == "--help"@ {
        Err(Usage::HelpRequested)
    } else {
        match take_value(tokens, i, "--dir"@) {
            Taken::Value { value, next } => if dir is Some {
                Err(Usage::DuplicateOption { option: "--dir"@ })
            } else if value.len() == 0 {
                Err(Usage::EmptyValue { option: "--dir"@ })
            } else {
                parse_init(tokens, next, g, Some(value))
            },
            Taken::Missing => Err(Usage::MissingValue { option: "--dir"@ }),
            Taken::Other => Err(rejected(tokens[i])),
        }
    }
}

/// The command line from argument `i` on, with the options of the program
/// that were read before it.
pub open spec fn parse_program(tokens: Seq<Seq<char>>, i: int, g: Globals) -> Result<
    CliView,
    Usage,
>
    decreases tokens.len() - i,
{
    if i >= tokens.len() {
        Err(Usage::MissingSubcommand)
    } else {
        let t = tokens[i];
        if t == "init"@ {
            parse_init(tokens, i + 1, g, None)
        } else if t == "build"@ {
            parse_bare(tokens, i + 1, g, CommandView::Build)
        } else if t == "validate"@ {
            parse_bare(tokens, i + 1, g, CommandView::Validate)
        } else if t == "help"@ || t == "-h"@ || t == "--help"@ {
            Err(Usage::HelpRequested)
        } else if t == "-V"@ || t == "--version"@ {
            Err(Usage::VersionRequested)
        } else {
            match option_at(tokens, i) {
                Some(o) => match take_value(tokens, i, o.name()) {
                    Taken::Value { value, next } => if g.get(o) is Some {
                        Err(Usage::DuplicateOption { option: o.name() })
                    } else if o.is_path() && value.len() == 0 {
                        Err(Usage::EmptyValue { option: o.name() })
                    } else {
                        parse_program(tokens, next, g.set(o, value))
                    },
                    _ => Err(Usage::MissingValue { option: o.name() }),
                },
                None => if starts_with_hyphen(t) {
                    Err(Usage::UnknownArgument { argument: t })
                } else {
                    Err(Usage::UnknownSubcommand { word: t })
                },
            }
        }
    }
}

/// The texts of the arguments.
pub open spec fn texts(args: Seq<&str>) -> Seq<Seq<char>> {
    args.map_values(|a: &str| a@)
}

/// The command line that the arguments make. The first argument is the
/// name of the program and is not read.
pub open spec fn parse(tokens: Seq<Seq<char>>) -> Result<CliView, Usage> {
    parse_program(
        tokens,
        1,
        Globals { config_dir: None, out_dir: None, install_path: None, envoy_bin: None },
    )
}

/* ---------------- the parser ---------------- */

/// How an argument reads as an option: see [`Taken`].
enum Took<'a> {
    Other,
    Missing,
    Value { value: &'a str, next: usize },
}

impl<'a> Took<'a> {
    spec fn model(self) -> Taken {
        match self {
            Took::Other => Taken::Other,
            Took::Missing => Taken::Missing,
            Took::Value { value, next } => Taken::Value { value: value@, next: next as int },
        }
    }
}

/// The text of an optional string slice.
pub open spec fn optional_text(o: Option<&str>) -> Option<Seq<char>> {
    match o {
        Some(t) => Some(t@),
        None => None,
    }
}

fn is_hyphenated(t: &str) -> (r: bool)
    ensures
        r == starts_with_hyphen(t@),
{
    t.unicode_len() > 0 && t.get_char(0) == '-'
}

/// Reads argument `i` as the option `name`.
fn take<'a>(args: &Vec<&'a str>, i: usize, name: &str) -> (r: Took<'a>)
    requires
        i < args@.len(),
    ensures
        r.model() == take_value(texts(args@), i as int, name@),
{
    let count: usize = args.len();
    let t = args[i];
    if str_eq(t, name) {
        if i + 1 < count {
            let v = args[i + 1];
            if !(v.unicode_len() >= 2 && v.get_char(0) == '-') {
                return Took::Value { value: v, next: i + 2 };
            }
        }
        return Took::Missing;
    }
    let n: usize = name.unicode_len();
    let len: usize = t.unicode_len();
    if len > n && str_eq(t.substring_char(0, n), name) && t.get_char(n) == '=' {
        return Took::Value { value: t.substring_char(n + 1, len), next: i + 1 };
    }
    Took::Other
}

/// The option of the program that argument `i` is, with what it took.
fn take_option<'a>(args: &Vec<&'a str>, i: usize) -> (r: Option<(ProgramOption, Took<'a>)>)
    requires
        i < args@.len(),
    ensures
        match r {
            Some((o, took)) => option_at(texts(args@), i as int) == Some(o) && took.model()
                == take_value(texts(args@), i as int, o.name()),
            None => option_at(texts(args@), i as int) is None,
        },
{
    let took = take(args, i, "--config-dir");
    if !matches!(took, Took::Other) {
        return Some((ProgramOption::ConfigDir, took));
    }
    let took = take(args, i, "--out-dir");
    if !matches!(took, Took::Other) {
        return Some((ProgramOption::OutDir, took));
    }
    let took = take(args, i, "--install-path");
    if !matches!(took, Took::Other) {
        return Some((ProgramOption::InstallPath, took));
    }
    let took = take(args, i, "--envoy-bin");
    if !matches!(took, Took::Other) {
        return Some((ProgramOption::EnvoyBin, took));
    }
    None
}

/// The options of the program, as they are read.
struct Read<'a> {
    config_dir: Option<&'a str>,
    out_dir: Option<&'a str>,
    install_path: Option<&'a str>,
    envoy_bin: Option<&'a str>,
}

impl<'a> Read<'a> {
    spec fn model(self) -> Globals {
        Globals {
            config_dir: optional_text(self.config_dir),
            out_dir: optional_text(self.out_dir),
            install_path: optional_text(self.install_path),
            envoy_bin: optional_text(self.envoy_bin),
        }
    }

    fn get(&self, o: ProgramOption) -> (r: Option<&'a str>)
        ensures
            optional_text(r) == self.model().get(o),
    {
        match o {
            ProgramOption::ConfigDir => self.config_dir,
            ProgramOption::OutDir => self.out_dir,
            ProgramOption::InstallPath => self.install_path,
            ProgramOption::EnvoyBin => self.envoy_bin,
        }
    }

    fn set(&mut self, o: ProgramOption, value: &'a str)
        ensures
            final(self).model() == old(self).model().set(o, value@),
    {
        match o {
            ProgramOption::ConfigDir => self.config_dir = Some(value),
            ProgramOption::OutDir => self.out_dir = Some(value),
            ProgramOption::InstallPath => self.install_path = Some(value),
            ProgramOption::EnvoyBin => self.envoy_bin = Some(value),
        }
    }

    /// The command line with the given subcommand.
    fn finish(&self, cmd: Command) -> (cli: Cli)
        ensures
            cli@ == finished(self.model(), cmd@),
    {
        Cli {
            config_dir: path_from(
                match self.config_dir {
                    Some(v) => v,
                    None => "config",
                },
            ),
            out_dir: path_from(
                match self.out_dir {
                    Some(v) => v,
                    None => "out",
                },
            ),
            install_path: path_from(
                match self.install_path {
                    Some(v) => v,
                    None => "/etc/envoy/envoy.yaml",
                },
            ),
            envoy_bin: match self.envoy_bin {
                Some(v) => Some(v.to_owned()),
                None => None,
            },
            cmd,
        }
    }
}

impl ProgramOption {
    fn name_str(self) -> (r: &'static str)
        ensures
            r@ == self.name(),
    {
        match self {
            ProgramOption::ConfigDir => "--config-dir",
            ProgramOption::OutDir => "--out-dir",
            ProgramOption::InstallPath => "--install-path",
            ProgramOption::EnvoyBin => "--envoy-bin",
        }
    }
}

fn reject(t: &str) -> (e: UsageError)
    ensures
        e@ == rejected(t@),
{
    if is_hyphenated(t) {
        UsageError::UnknownArgument { argument: t.to_owned() }
    } else {
        UsageError::UnexpectedArgument { argument: t.to_owned() }
    }
}

fn is_help(t: &str) -> (r: bool)
    ensures
        r == (t@ == "-h"@ || t@ == "--help"@),
{
    str_eq(t, "-h") || str_eq(t, "--help")
}

fn bare(args: &Vec<&str>, i: usize, read: &Read, cmd: Command) -> (r: Result<Cli, UsageError>)
    ensures
        result_view(r) == parse_bare(texts(args@), i as int, read.model(), cmd@),
{
    if i >= args.len() {
        Ok(read.finish(cmd))
    } else if is_help(args[i]) {
        Err(UsageError::HelpRequested)
    } else {
        Err(reject(args[i]))
    }
}

fn init(args: &Vec<&str>, start: usize, read: &Read) -> (r: Result<Cli, UsageError>)
    ensures
        result_view(r) == parse_init(texts(args@), start as int, read.model(), None),
{
    let mut dir: Option<&str> = None;
    let mut i: usize = start;
    while i < args.len()
        invariant
            parse_init(texts(args@), start as int, read.model(), None) == parse_init(
                texts(args@),
                i as int,
                read.model(),
                optional_text(dir),
            ),
        decreases args@.len() - i,
    {
        if is_help(args[i]) {
            return Err(UsageError::HelpRequested);
        }
        match take(args, i, "--dir") {
            Took::Value { value, next } => {
                if dir.is_some() {
                    return Err(UsageError::DuplicateOption { option: "--dir".to_owned() });
                }
                if value.unicode_len() == 0 {
                    return Err(UsageError::EmptyValue { option: "--dir".to_owned() });
                }
                dir = Some(value);
                i = next;
            },
            Took::Missing => {
                return Err(UsageError::MissingValue { option: "--dir".to_owned() });
            },
            Took::Other => {
                return Err(reject(args[i]));
            },
        }
    }
    let dir = path_from(
        match dir {
            Some(d) => d,
            None => "envoy-work",
        },
    );
    Ok(read.finish(Command::Init { dir }))
}

impl Cli {
    /// Parses a command line. The first argument is the name of the
    /// program.
    pub fn try_parse_from(args: Vec<&str>) -> (r: Result<Cli, UsageError>)
        ensures
            result_view(r) == parse(texts(args@)),
    {
        let mut read = Read { config_dir: None, out_dir: None, install_path: None, envoy_bin: None };
        let mut i: usize = 1;
        while i < args.len()
            invariant
                1 <= i,
                parse(texts(args@)) == parse_program(texts(args@), i as int, read.model()),
            decreases args@.len() - i,
        {
            let t = args[i];
            if str_eq(t, "init") {
                return init(&args, i + 1, &read);
            }
            if str_eq(t, "build") {
                return bare(&args, i + 1, &read, Command::Build);
            }
            if str_eq(t, "validate") {
                return bare(&args, i + 1, &read, Command::Validate);
            }
            if str_eq(t, "help") || is_help(t) {
                return Err(UsageError::HelpRequested);
            }
            if str_eq(t, "-V") || str_eq(t, "--version") {
                return Err(UsageError::VersionRequested);
            }
            match take_option(&args, i) {
                Some((o, took)) => match took {
                    Took::Value { value, next } => {
                        if read.get(o).is_some() {
                            return Err(
                                UsageError::DuplicateOption { option: o.name_str().to_owned() },
                            );
                        }
                        if o != ProgramOption::EnvoyBin && value.unicode_len() == 0 {
                            return Err(UsageError::EmptyValue { option: o.name_str().to_owned() });
                        }
                        read.set(o, value);
                        i = next;
                    },
                    _ => {
                        return Err(UsageError::MissingValue { option: o.name_str().to_owned() });
                    },
                },
                None => {
                    if is_hyphenated(t) {
                        return Err(UsageError::UnknownArgument { argument: t.to_owned() });
                    }
                    return Err(UsageError::UnknownSubcommand { word: t.to_owned() });
                },
            }
        }
        Err(UsageError::MissingSubcommand)
    }
}

} // verus!
