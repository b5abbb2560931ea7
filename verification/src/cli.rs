//! The command-line grammar: flags for configuration paths, search filter,
//! sorting, command templates and exit behaviour, parsed from an argument
//! list into an [`Args`] value, with defaults matching an unadorned run.

use crate::strutil::str_eq;
use vstd::prelude::*;

verus! {

/// The parsed command line.
#[derive(Debug)]
pub struct Args {
    /// Paths to the SSH configuration files.
    pub config: Vec<String>,
    /// Shows `ProxyCommand`.
    pub show_proxy_command: bool,
    /// Host search filter.
    pub search: Option<String>,
    /// Sort hosts by hostname.
    pub sort: bool,
    /// Handlebars template of the command to execute.
    pub template: String,
    /// Template of the command to execute when an SSH session starts.
    pub on_session_start_template: Option<String>,
    /// Template of the command to execute when an SSH session ends.
    pub on_session_end_template: Option<String>,
    /// Exit after ending the SSH session.
    pub exit: bool,
}

/// The specification-level image of [`Args`].
pub ghost struct ArgsView {
    pub config: Seq<Seq<char>>,
    pub show_proxy_command: bool,
    pub search: Option<Seq<char>>,
    pub sort: bool,
    pub template: Seq<char>,
    pub on_session_start_template: Option<Seq<char>>,
    pub on_session_end_template: Option<Seq<char>>,
    pub exit: bool,
}

impl View for Args {
    type V = ArgsView;

    open spec fn view(&self) -> ArgsView {
        ArgsView {
            config: self.config.deep_view(),
            show_proxy_command: self.show_proxy_command,
            search: self.search.deep_view(),
            sort: self.sort,
            template: self.template@,
            on_session_start_template: self.on_session_start_template.deep_view(),
            on_session_end_template: self.on_session_end_template.deep_view(),
            exit: self.exit,
        }
    }
}

/// Why the command line was not accepted.
#[derive(Debug)]
pub enum CliError {
    /// Help was requested; the payload is the help text.
    HelpRequested(String),
    /// The version was requested; the payload is the version line.
    VersionRequested(String),
    /// An argument no flag accounts for.
    UnknownArgument(String),
    /// A flag that needs a value stood last, with none following.
    MissingValue(String),
}

impl CliError {
    /// The human-readable text of this error.
    pub fn message(&self) -> (r: String)
        ensures
            *self matches CliError::HelpRequested(m) ==> r@ == m@,
            *self matches CliError::VersionRequested(m) ==> r@ == m@,
            *self matches CliError::UnknownArgument(a) ==> r@ == "unexpected argument: "@ + a@,
            *self matches CliError::MissingValue(f) ==> r@ == "a value is required for "@ + f@,
    {
        match self {
            CliError::HelpRequested(m) => m.clone(),
            CliError::VersionRequested(m) => m.clone(),
            CliError::UnknownArgument(a) => {
                let mut s = String::from_str("unexpected argument: ");
                s.append(a.as_str());
                s
            },
            CliError::MissingValue(f) => {
                let mut s = String::from_str("a value is required for ");
                s.append(f.as_str());
                s
            },
        }
    }
}

/// How parsing an argument list ends.
pub ghost enum ParseOutcome {
    Accepted(ArgsView),
    Help,
    Version,
    Unknown(Seq<char>),
    Missing(Seq<char>),
}

/// The default system-wide SSH configuration path.
pub fn default_system_ssh_config() -> (r: &'static str)
    ensures
        r@ == "/etc/ssh/ssh_config"@,
{
    "/etc/ssh/ssh_config"
}

/// The default per-user SSH configuration path.
pub fn default_user_ssh_config() -> (r: &'static str)
    ensures
        r@ == "~/.ssh/config"@,
{
    "~/.ssh/config"
}

/// The default command template.
pub fn default_ssh_template() -> (r: &'static str)
    ensures
        r@ == "ssh \"{{{name}}}\""@,
{
    "ssh \"{{{name}}}\""
}

/// Hosts are sorted by name unless asked otherwise.
pub fn default_sort_by_name() -> (r: bool)
    ensures
        r,
{
    true
}

/// The proxy command column is hidden by default.
pub fn default_show_proxy_command() -> (r: bool)
    ensures
        !r,
{
    false
}

/// The program keeps running after an SSH session ends by default.
pub fn default_exit_after_session() -> (r: bool)
    ensures
        !r,
{
    false
}

/// The help text; it names every flag.
pub fn help_text() -> (r: &'static str)
    ensures
        r@ == spec_help_text(),
{
    "Usage: sshs [OPTIONS]\n\nOptions:\n  -c, --config <CONFIG>...  Path to the SSH configuration file\n      --show-proxy-command  Shows ProxyCommand\n  -s, --search <SEARCH>  Host search filter\n      --sort  Sort hosts by hostname\n  -t, --template <TEMPLATE>  Handlebars template of the command to execute\n      --on-session-start-template <TEMPLATE>  Template run when an SSH session starts\n      --on-session-end-template <TEMPLATE>  Template run when an SSH session ends\n  -e, --exit  Exit after ending the SSH session\n  -h, --help  Print help\n  -V, --version  Print version"
}

/// The help text, at the specification level.
pub open spec fn spec_help_text() -> Seq<char> {
    "Usage: sshs [OPTIONS]\n\nOptions:\n  -c, --config <CONFIG>...  Path to the SSH configuration file\n      --show-proxy-command  Shows ProxyCommand\n  -s, --search <SEARCH>  Host search filter\n      --sort  Sort hosts by hostname\n  -t, --template <TEMPLATE>  Handlebars template of the command to execute\n      --on-session-start-template <TEMPLATE>  Template run when an SSH session starts\n      --on-session-end-template <TEMPLATE>  Template run when an SSH session ends\n  -e, --exit  Exit after ending the SSH session\n  -h, --help  Print help\n  -V, --version  Print version"@
}

/// The version line.
pub fn version_text() -> (r: &'static str)
    ensures
        r@ == "sshs 0.1.0"@,
{
    "sshs 0.1.0"
}

/// The argument values before any flag is applied.
pub open spec fn default_args_view() -> ArgsView {
    ArgsView {
        config: seq!["/etc/ssh/ssh_config"@, "~/.ssh/config"@],
        show_proxy_command: false,
        search: None,
        sort: true,
        template: "ssh \"{{{name}}}\""@,
        on_session_start_template: None,
        on_session_end_template: None,
        exit: false,
    }
}

/// A token that looks like a flag: non-empty and starting with a dash.
pub open spec fn is_flag_like(t: Seq<char>) -> bool {
    t.len() > 0 && t[0] == '-'
}

/// The length of the leading run of value tokens (tokens not starting with a
/// dash).
pub open spec fn value_run(rest: Seq<Seq<char>>) -> int
    decreases rest.len(),
{
    if rest.len() == 0 || is_flag_like(rest[0]) {
        0
    } else {
        1 + value_run(rest.skip(1))
    }
}

/// What parsing the remaining tokens yields, given the values accumulated so
/// far and whether a `--config` flag was already seen (the first occurrence
/// replaces the default paths; later ones append).
pub open spec fn parse_args_spec(rest: Seq<Seq<char>>, acc: ArgsView, config_set: bool) -> ParseOutcome
    decreases rest.len(),
    via parse_args_spec_dec
{
    if rest.len() == 0 {
        ParseOutcome::Accepted(acc)
    } else {
        let t = rest[0];
        if t == "-c"@ || t == "--config"@ {
            let run = value_run(rest.skip(1));
            if run == 0 {
                ParseOutcome::Missing(t)
            } else {
                let taken = rest.skip(1).take(run);
                let config = if config_set {
                    acc.config + taken
                } else {
                    taken
                };
                parse_args_spec(
                    rest.skip(1 + run),
                    ArgsView { config, ..acc },
                    true,
                )
            }
        } else if t == "--show-proxy-command"@ {
            parse_args_spec(rest.skip(1), ArgsView { show_proxy_command: true, ..acc }, config_set)
        } else if t == "-s"@ || t == "--search"@ {
            if rest.len() < 2 {
                ParseOutcome::Missing(t)
            } else {
                parse_args_spec(rest.skip(2), ArgsView { search: Some(rest[1]), ..acc }, config_set)
            }
        } else if t == "--sort"@ {
            parse_args_spec(rest.skip(1), ArgsView { sort: true, ..acc }, config_set)
        } else if t == "-t"@ || t == "--template"@ {
            if rest.len() < 2 {
                ParseOutcome::Missing(t)
            } else {
                parse_args_spec(rest.skip(2), ArgsView { template: rest[1], ..acc }, config_set)
            }
        } else if t == "--on-session-start-template"@ {
            if rest.len() < 2 {
                ParseOutcome::Missing(t)
            } else {
                parse_args_spec(
                    rest.skip(2),
                    ArgsView { on_session_start_template: Some(rest[1]), ..acc },
                    config_set,
                )
            }
        } else if t == "--on-session-end-template"@ {
            if rest.len() < 2 {
                ParseOutcome::Missing(t)
            } else {
                parse_args_spec(
                    rest.skip(2),
                    ArgsView { on_session_end_template: Some(rest[1]), ..acc },
                    config_set,
                )
            }
        } else if t == "-e"@ || t == "--exit"@ {
            parse_args_spec(rest.skip(1), ArgsView { exit: true, ..acc }, config_set)
        } else if t == "-h"@ || t == "--help"@ {
            ParseOutcome::Help
        } else if t == "-V"@ || t == "--version"@ {
            ParseOutcome::Version
        } else {
            ParseOutcome::Unknown(t)
        }
    }
}

/// The leading value run never exceeds the token count.
proof fn lemma_value_run_bounds(rest: Seq<Seq<char>>)
    ensures
        0 <= value_run(rest) <= rest.len(),
    decreases rest.len(),
{
    if rest.len() > 0 && !is_flag_like(rest[0]) {
        lemma_value_run_bounds(rest.skip(1));
    }
}

#[via_fn]
proof fn parse_args_spec_dec(rest: Seq<Seq<char>>, acc: ArgsView, config_set: bool) {
    if rest.len() > 0 {
        lemma_value_run_bounds(rest.skip(1));
    }
}

/// The tokens after the program name: everything past the first element.
pub open spec fn cli_tokens(args: Seq<Seq<char>>) -> Seq<Seq<char>> {
    if args.len() == 0 {
        Seq::empty()
    } else {
        args.skip(1)
    }
}

impl Args {
    /// Parses an argument list whose first element is the program name.
    /// Defaults stand where no flag overrides them; help and version
    /// requests and unrecognised arguments are reported as errors.
    pub fn try_parse_from(args: Vec<String>) -> (r: Result<Args, CliError>)
        ensures
            ({
                let out = parse_args_spec(
                    cli_tokens(args.deep_view()),
                    default_args_view(),
                    false,
                );
                &&& (r matches Ok(a) <==> out is Accepted)
                &&& (r matches Ok(a) ==> out matches ParseOutcome::Accepted(v) && a@ == v)
                &&& (r matches Err(CliError::HelpRequested(m)) ==> out is Help && m@
                    == spec_help_text())
                &&& (out is Help ==> (r matches Err(CliError::HelpRequested(m)) && m@
                    == spec_help_text()))
                &&& (out is Version <==> r matches Err(CliError::VersionRequested(m)))
                &&& (r matches Err(CliError::UnknownArgument(a)) ==> (out matches
                    ParseOutcome::Unknown(t) && a@ == t))
                &&& (out is Unknown ==> r matches Err(CliError::UnknownArgument(a)))
                &&& (r matches Err(CliError::MissingValue(f)) ==> (out matches
                    ParseOutcome::Missing(t) && f@ == t))
                &&& (out is Missing ==> r matches Err(CliError::MissingValue(f)))
            }),
    {
        let mut config: Vec<String> = Vec::new();
        config.push(String::from_str(default_system_ssh_config()));
        config.push(String::from_str(default_user_ssh_config()));
        let acc = Args {
            config,
            show_proxy_command: false,
            search: None,
            sort: true,
            template: String::from_str(default_ssh_template()),
            on_session_start_template: None,
            on_session_end_template: None,
            exit: false,
        };
        proof {
            assert(acc@.config =~= default_args_view().config);
            assert(acc@ == default_args_view());
        }
        let start: usize = if args.len() == 0 {
            0
        } else {
            1
        };
        proof {
            if args@.len() == 0 {
                assert(args.deep_view().skip(0) =~= cli_tokens(args.deep_view()));
            } else {
                assert(args.deep_view().skip(1) =~= cli_tokens(args.deep_view()));
            }
        }
        parse_rest(&args, start, acc, false)
    }
}

/// Whether the token at `i` looks like a flag.
fn flag_like_at(args: &Vec<String>, i: usize) -> (r: bool)
    requires
        i < args@.len(),
    ensures
        r == is_flag_like(args.deep_view()[i as int]),
{
    let t = args[i].as_str();
    if t.unicode_len() == 0 {
        false
    } else {
        t.get_char(0) == '-'
    }
}

/// Parses the tokens from position `i` on, with `acc` accumulated so far.
fn parse_rest(args: &Vec<String>, i: usize, acc: Args, config_set: bool) -> (r: Result<
    Args,
    CliError,
>)
    requires
        i <= args@.len(),
    ensures
        ({
            let out = parse_args_spec(args.deep_view().skip(i as int), acc@, config_set);
            &&& (r matches Ok(a) <==> out is Accepted)
            &&& (r matches Ok(a) ==> out matches ParseOutcome::Accepted(v) && a@ == v)
            &&& (r matches Err(CliError::HelpRequested(m)) ==> out is Help && m@
                == spec_help_text())
            &&& (out is Help ==> (r matches Err(CliError::HelpRequested(m)) && m@
                == spec_help_text()))
            &&& (out is Version <==> r matches Err(CliError::VersionRequested(m)))
            &&& (r matches Err(CliError::UnknownArgument(a)) ==> (out matches
                ParseOutcome::Unknown(t) && a@ == t))
            &&& (out is Unknown ==> r matches Err(CliError::UnknownArgument(a)))
            &&& (r matches Err(CliError::MissingValue(f)) ==> (out matches ParseOutcome::Missing(
                t,
            ) && f@ == t))
            &&& (out is Missing ==> r matches Err(CliError::MissingValue(f)))
        }),
    decreases args@.len() - i,
{
    let ghost rest = args.deep_view().skip(i as int);
    if i >= args.len() {
        return Ok(acc);
    }
    proof {
        assert(rest[0] == args.deep_view()[i as int]);
        assert(rest.skip(1) =~= args.deep_view().skip(i + 1));
    }
    let t = args[i].as_str();
    if str_eq(t, "-c") || str_eq(t, "--config") {
        let mut j = i + 1;
        let mut taken: Vec<String> = Vec::new();
        while j < args.len() && !flag_like_at(args, j)
            invariant
                i + 1 <= j <= args@.len(),
                taken.deep_view() =~= args.deep_view().subrange(i + 1, j as int),
                forall|k: int| i + 1 <= k < j ==> !is_flag_like(args.deep_view()[k]),
            decreases args@.len() - j,
        {
            let ghost old_taken = taken.deep_view();
            taken.push(args[j].clone());
            proof {
                assert(taken.deep_view() =~= old_taken.push(args.deep_view()[j as int]));
                assert(taken.deep_view() =~= args.deep_view().subrange(i + 1, j + 1));
            }
            j += 1;
        }
        proof {
            lemma_value_run_exact(args.deep_view(), i + 1, j as int);
            assert(args.deep_view().skip(i + 1).take(j - (i + 1)) =~= args.deep_view().subrange(
                i + 1,
                j as int,
            ));
        }
        if j == i + 1 {
            return Err(CliError::MissingValue(t.to_owned()));
        }
        let next_acc = if config_set {
            let mut config = acc.config;
            let mut rest_vals = taken;
            config.append(&mut rest_vals);
            let a = Args { config, ..acc };
            proof {
                assert(a@.config =~= acc@.config + args.deep_view().subrange(i + 1, j as int));
            }
            a
        } else {
            Args { config: taken, ..acc }
        };
        proof {
            assert(args.deep_view().skip(i + (j - i)) =~= args.deep_view().skip(i as int).skip(
                1 + (j - (i + 1)),
            ));
        }
        parse_rest(args, j, next_acc, true)
    } else if str_eq(t, "--show-proxy-command") {
        parse_rest(args, i + 1, Args { show_proxy_command: true, ..acc }, config_set)
    } else if str_eq(t, "-s") || str_eq(t, "--search") {
        if i + 1 >= args.len() {
            proof {
                assert(rest.len() < 2);
            }
            return Err(CliError::MissingValue(t.to_owned()));
        }
        proof {
            assert(rest[1] == args.deep_view()[i + 1]);
            assert(rest.skip(2) =~= args.deep_view().skip(i + 2));
        }
        parse_rest(args, i + 2, Args { search: Some(args[i + 1].clone()), ..acc }, config_set)
    } else if str_eq(t, "--sort") {
        parse_rest(args, i + 1, Args { sort: true, ..acc }, config_set)
    } else if str_eq(t, "-t") || str_eq(t, "--template") {
        if i + 1 >= args.len() {
            return Err(CliError::MissingValue(t.to_owned()));
        }
        proof {
            assert(rest[1] == args.deep_view()[i + 1]);
            assert(rest.skip(2) =~= args.deep_view().skip(i + 2));
        }
        parse_rest(args, i + 2, Args { template: args[i + 1].clone(), ..acc }, config_set)
    } else if str_eq(t, "--on-session-start-template") {
        if i + 1 >= args.len() {
            return Err(CliError::MissingValue(t.to_owned()));
        }
        proof {
            assert(rest[1] == args.deep_view()[i + 1]);
            assert(rest.skip(2) =~= args.deep_view().skip(i + 2));
        }
        parse_rest(
            args,
            i + 2,
            Args { on_session_start_template: Some(args[i + 1].clone()), ..acc },
            config_set,
        )
    } else if str_eq(t, "--on-session-end-template") {
        if i + 1 >= args.len() {
            return Err(CliError::MissingValue(t.to_owned()));
        }
        proof {
            assert(rest[1] == args.deep_view()[i + 1]);
            assert(rest.skip(2) =~= args.deep_view().skip(i + 2));
        }
        parse_rest(
            args,
            i + 2,
            Args { on_session_end_template: Some(args[i + 1].clone()), ..acc },
            config_set,
        )
    } else if str_eq(t, "-e") || str_eq(t, "--exit") {
        parse_rest(args, i + 1, Args { exit: true, ..acc }, config_set)
    } else if str_eq(t, "-h") || str_eq(t, "--help") {
        Err(CliError::HelpRequested(String::from_str(help_text())))
    } else if str_eq(t, "-V") || str_eq(t, "--version") {
        Err(CliError::VersionRequested(String::from_str(version_text())))
    } else {
        Err(CliError::UnknownArgument(t.to_owned()))
    }
}

/// Between positions `from` and `to`, and not before `to`, the tokens are
/// value-like: the leading value run of the tail starting at `from` is
/// exactly `to - from`.
proof fn lemma_value_run_exact(tokens: Seq<Seq<char>>, from: int, to: int)
    requires
        0 <= from <= to <= tokens.len(),
        forall|k: int| from <= k < to ==> !is_flag_like(tokens[k]),
        to < tokens.len() ==> is_flag_like(tokens[to]),
    ensures
        value_run(tokens.skip(from)) == to - from,
    decreases to - from,
{
    if from == to {
        if to < tokens.len() {
            assert(tokens.skip(from)[0] == tokens[from]);
        }
    } else {
        assert(!is_flag_like(tokens[from]));
        assert(tokens.skip(from)[0] == tokens[from]);
        lemma_value_run_exact(tokens, from + 1, to);
        assert(tokens.skip(from).skip(1) =~= tokens.skip(from + 1));
    }
}

} // verus!
