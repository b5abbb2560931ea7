//! SSH host records: the fields a session is built from, command-injection
//! safety checks over them, and rendering of a user-supplied command
//! template into an executable command line.

use crate::searchable::SearchFilter;
use crate::strutil::char_to_string;
use fuzzy_matcher::FuzzyMatcher;
use std::collections::BTreeMap;
use vstd::prelude::*;

verus! {

/// One host entry from an SSH configuration: a display name, the aliases it
/// was also declared under, and the optional connection parameters.
#[derive(Debug, Clone)]
pub struct Host {
    pub name: String,
    pub aliases: String,
    pub user: Option<String>,
    pub destination: String,
    pub port: Option<String>,
    pub proxy_command: Option<String>,
}

/// A character that may appear in a value substituted into a shell command:
/// letters, digits, and punctuation that cannot break out of a word.
pub open spec fn is_safe_char(c: char) -> bool {
    let u = c as u32;
    (('a' as u32) <= u && u <= ('z' as u32)) || (('A' as u32) <= u && u <= ('Z' as u32)) || ((
    '0' as u32) <= u && u <= ('9' as u32)) || c == '.' || c == '-' || c == '_' || c == ':' || c
        == '/' || c == '@' || c == '%' || c == '+' || c == '=' || c == ' ' || c == ','
}

/// Every character of `s` is safe for command substitution.
pub open spec fn all_safe(s: Seq<char>) -> bool {
    forall|i: int| 0 <= i < s.len() ==> is_safe_char(#[trigger] s[i])
}

/// Position `i` holds the first unsafe character of `s`.
pub open spec fn is_first_unsafe_at(s: Seq<char>, i: int) -> bool {
    &&& 0 <= i < s.len()
    &&& !is_safe_char(s[i])
    &&& forall|j: int| 0 <= j < i ==> is_safe_char(#[trigger] s[j])
}

/// Why a command could not be prepared from a host and a template.
#[derive(Debug)]
pub enum CommandError {
    /// A host field holds a character outside the safe set.
    UnsafeCharacter { ch: char, value: String },
    /// The command template could not be rendered.
    Template(String),
    /// The rendered command line has no shell-word reading.
    UnparsableCommand(String),
    /// The rendered command line holds no words at all.
    EmptyCommand,
}

/// The message text of a [`CommandError`].
pub open spec fn command_error_message(e: CommandError) -> Seq<char> {
    match e {
        CommandError::UnsafeCharacter { ch, value } => "Value contains potentially dangerous characters: '"@
            + seq![ch] + "' in: "@ + value@,
        CommandError::Template(msg) => "Failed to render command template: "@ + msg@,
        CommandError::UnparsableCommand(cmd) => "Failed to parse command: "@ + cmd@,
        CommandError::EmptyCommand => "Failed to get command"@,
    }
}

impl CommandError {
    /// The human-readable text of this error.
    pub fn message(&self) -> (r: String)
        ensures
            r@ == command_error_message(*self),
    {
        match self {
            CommandError::UnsafeCharacter { ch, value } => {
                let mut s = String::from_str("Value contains potentially dangerous characters: '");
                let cs = char_to_string(*ch);
                s.append(cs.as_str());
                s.append("' in: ");
                s.append(value.as_str());
                proof {
                    assert(s@ =~= command_error_message(*self));
                }
                s
            },
            CommandError::Template(msg) => {
                let mut s = String::from_str("Failed to render command template: ");
                s.append(msg.as_str());
                s
            },
            CommandError::UnparsableCommand(cmd) => {
                let mut s = String::from_str("Failed to parse command: ");
                s.append(cmd.as_str());
                s
            },
            CommandError::EmptyCommand => String::from_str("Failed to get command"),
        }
    }
}

fn is_safe(c: char) -> (r: bool)
    ensures
        r == is_safe_char(c),
{
    let u = c as u32;
    (u >= 'a' as u32 && u <= 'z' as u32) || (u >= 'A' as u32 && u <= 'Z' as u32) || (u >= '0' as u32
        && u <= '9' as u32) || c == '.' || c == '-' || c == '_' || c == ':' || c == '/' || c == '@'
        || c == '%' || c == '+' || c == '=' || c == ' ' || c == ','
}

/// What the result of rendering a template against a key/value listing is.
/// Relies on handlebars' `render_template`, which computes it from the
/// template text and the data alone.
pub uninterp spec fn rendered_of(pattern: Seq<char>, fields: Seq<(Seq<char>, Seq<char>)>) -> Option<
    Seq<char>,
>;

/// Relies on handlebars' `Handlebars::render_template`: renders the template
/// against the given key/value pairs; the outside error is reported as text.
#[verifier::external_body]
fn render_template_pairs(pattern: &str, fields: &Vec<(String, String)>) -> (r: Result<
    String,
    String,
>)
    ensures
        r is Ok <==> rendered_of(pattern@, fields.deep_view()) is Some,
        r matches Ok(s) ==> rendered_of(pattern@, fields.deep_view()) == Some(s@),
{
    let mut map: BTreeMap<String, String> = BTreeMap::new();
    for (k, v) in fields.iter() {
        map.insert(k.clone(), v.clone());
    }
    let registry = handlebars::Handlebars::new();
    match registry.render_template(pattern, &map) {
        Ok(s) => Ok(s),
        Err(e) => Err(e.to_string()),
    }
}

/// What splitting a command line into shell words yields.
/// Relies on shlex' `split`, which computes it from the text alone.
pub uninterp spec fn shell_split_of(s: Seq<char>) -> Option<Seq<Seq<char>>>;

/// Relies on shlex' `split`: POSIX-shell word splitting of a command line;
/// `None` on unmatched quoting.
#[verifier::external_body]
fn shell_split(s: &str) -> (r: Option<Vec<String>>)
    ensures
        r is Some <==> shell_split_of(s@) is Some,
        r matches Some(v) ==> shell_split_of(s@) == Some(v.deep_view()),
{
    shlex::split(s)
}

/// What the fuzzy matcher scores a choice/pattern pair as.
/// Relies on fuzzy-matcher's `SkimMatcherV2` under its default options,
/// which computes it from the two strings alone.
pub uninterp spec fn fuzzy_score_of(choice: Seq<char>, pattern: Seq<char>) -> Option<i64>;

/// Relies on fuzzy-matcher's `SkimMatcherV2::fuzzy_match` with default
/// options: `Some(score)` when the pattern fuzzily matches the choice.
#[verifier::external_body]
fn fuzzy_match_score(choice: &str, pattern: &str) -> (r: Option<i64>)
    ensures
        r == fuzzy_score_of(choice@, pattern@),
{
    fuzzy_matcher::skim::SkimMatcherV2::default().fuzzy_match(choice, pattern)
}

/// The template data a host offers, as ordered key/value pairs; optional
/// fields are absent when unset.
pub open spec fn host_fields_spec(h: Host) -> Seq<(Seq<char>, Seq<char>)> {
    seq![("name"@, h.name@), ("aliases"@, h.aliases@)] + (match h.user {
        Some(u) => seq![("user"@, u@)],
        None => Seq::empty(),
    }) + seq![("destination"@, h.destination@)] + (match h.port {
        Some(p) => seq![("port"@, p@)],
        None => Seq::empty(),
    }) + (match h.proxy_command {
        Some(p) => seq![("proxy_command"@, p@)],
        None => Seq::empty(),
    })
}

/// Every substitutable field of `h` passes the safety check.
pub open spec fn cmd_fields_safe(h: Host) -> bool {
    &&& all_safe(h.name@)
    &&& (h.user matches Some(u) ==> all_safe(u@))
    &&& all_safe(h.destination@)
    &&& (h.port matches Some(p) ==> all_safe(p@))
    &&& (h.proxy_command matches Some(p) ==> all_safe(p@))
    &&& all_safe(h.aliases@)
}

impl Host {
    /// Checks that `value` only holds characters safe to substitute into a
    /// shell command; reports the first offending character otherwise.
    pub fn validate_safe_for_command(value: &str) -> (r: Result<(), CommandError>)
        ensures
            r is Ok <==> all_safe(value@),
            r matches Err(e) ==> e matches CommandError::UnsafeCharacter { ch, value: v } && v@
                == value@ && exists|i: int| #[trigger] is_first_unsafe_at(value@, i) && ch
                == value@[i],
    {
        let len = value.unicode_len();
        let mut i: usize = 0;
        while i < len
            invariant
                len == value@.len(),
                i <= len,
                forall|j: int| 0 <= j < i ==> is_safe_char(#[trigger] value@[j]),
            decreases len - i,
        {
            let c = value.get_char(i);
            if !is_safe(c) {
                proof {
                    assert(is_first_unsafe_at(value@, i as int));
                }
                return Err(CommandError::UnsafeCharacter { ch: c, value: value.to_owned() });
            }
            i += 1;
        }
        Ok(())
    }

    /// The template data this host offers, as ordered key/value pairs.
    fn host_fields(&self) -> (r: Vec<(String, String)>)
        ensures
            r.deep_view() == host_fields_spec(*self),
    {
        let mut r: Vec<(String, String)> = Vec::new();
        r.push(("name".to_owned(), self.name.clone()));
        r.push(("aliases".to_owned(), self.aliases.clone()));
        if let Some(u) = &self.user {
            r.push(("user".to_owned(), u.clone()));
        }
        r.push(("destination".to_owned(), self.destination.clone()));
        if let Some(p) = &self.port {
            r.push(("port".to_owned(), p.clone()));
        }
        if let Some(p) = &self.proxy_command {
            r.push(("proxy_command".to_owned(), p.clone()));
        }
        proof {
            assert(r.deep_view() =~= host_fields_spec(*self));
        }
        r
    }

    /// Renders the command template against this host's fields and splits the
    /// result into a command and its arguments, after checking every field
    /// for shell-unsafe characters. The caller is responsible for running it.
    pub fn run_command_template(&self, pattern: &str) -> (r: Result<
        (String, Vec<String>),
        CommandError,
    >)
        ensures
            r is Ok ==> cmd_fields_safe(*self),
            !cmd_fields_safe(*self) ==> (r matches Err(e) && e matches CommandError::UnsafeCharacter {
                ..
            }),
            r matches Ok(p) ==> rendered_of(pattern@, host_fields_spec(*self)) matches Some(cmdline)
                && shell_split_of(cmdline) matches Some(words) && words.len() > 0 && p.0@
                == words[0] && p.1.deep_view() == words.skip(1),
            ({
                &&& cmd_fields_safe(*self)
                &&& rendered_of(pattern@, host_fields_spec(*self)) matches Some(cmdline)
                    && shell_split_of(cmdline) matches Some(words) && words.len() > 0
            }) ==> r is Ok,
    {
        if let Err(e) = Self::validate_safe_for_command(self.name.as_str()) {
            return Err(e);
        }
        if let Some(u) = &self.user {
            if let Err(e) = Self::validate_safe_for_command(u.as_str()) {
                return Err(e);
            }
        }
        if let Err(e) = Self::validate_safe_for_command(self.destination.as_str()) {
            return Err(e);
        }
        if let Some(p) = &self.port {
            if let Err(e) = Self::validate_safe_for_command(p.as_str()) {
                return Err(e);
            }
        }
        if let Some(p) = &self.proxy_command {
            if let Err(e) = Self::validate_safe_for_command(p.as_str()) {
                return Err(e);
            }
        }
        if let Err(e) = Self::validate_safe_for_command(self.aliases.as_str()) {
            return Err(e);
        }
        let fields = self.host_fields();
        let cmdline = match render_template_pairs(pattern, &fields) {
            Ok(s) => s,
            Err(msg) => {
                return Err(CommandError::Template(msg));
            },
        };
        let words = match shell_split(cmdline.as_str()) {
            Some(w) => w,
            None => {
                return Err(CommandError::UnparsableCommand(cmdline));
            },
        };
        if words.len() == 0 {
            return Err(CommandError::EmptyCommand);
        }
        let command = words[0].clone();
        let mut args: Vec<String> = Vec::new();
        let n = words.len();
        let mut i: usize = 1;
        while i < n
            invariant
                n == words@.len(),
                1 <= i <= n,
                args.deep_view() =~= words.deep_view().subrange(1, i as int),
            decreases n - i,
        {
            let ghost old_args = args.deep_view();
            args.push(words[i].clone());
            proof {
                assert(args.deep_view() =~= old_args.push(words@[i as int]@));
                assert(args.deep_view() =~= words.deep_view().subrange(1, i + 1));
            }
            i += 1;
        }
        proof {
            assert(args.deep_view() =~= words.deep_view().skip(1));
            assert(command@ == words.deep_view()[0]);
        }
        Ok((command, args))
    }
}

/// The search predicate the host table uses: a host matches when the query
/// fuzzily matches its name, destination, or aliases.
pub struct HostFilter;

impl SearchFilter<Host> for HostFilter {
    open spec fn filter_spec(&self, item: &Host, query: Seq<char>) -> bool {
        fuzzy_score_of(item.name@, query) is Some || fuzzy_score_of(item.destination@, query)
            is Some || fuzzy_score_of(item.aliases@, query) is Some
    }

    fn matches(&self, item: &Host, query: &str) -> (r: bool)
        ensures
            r == self.filter_spec(item, query@),
    {
        let name_hit = fuzzy_match_score(item.name.as_str(), query).is_some();
        let dest_hit = fuzzy_match_score(item.destination.as_str(), query).is_some();
        let alias_hit = fuzzy_match_score(item.aliases.as_str(), query).is_some();
        name_hit || dest_hit || alias_hit
    }
}

} // verus!
