//! The add/edit-host form: four text fields with cyclic focus, validation of
//! hostnames, usernames and ports, sanitizing of the values, and the
//! configuration-entry text they persist as. File I/O stays with the caller;
//! the duplicate check works on configuration text handed in.

use crate::config::{starts_with, str_starts_with, trim_spec, trim_str};
use crate::strutil::{spec_contains, spec_lines, split_lines, str_contains};
use vstd::prelude::*;

verus! {

/// The state of the form dialog.
#[derive(PartialEq, Eq, Structural, Copy, Clone, Debug)]
pub enum FormState {
    /// Form is hidden.
    Hidden,
    /// Form is active and visible.
    Active,
    /// Showing a confirmation dialog.
    Confirming,
}

/// A decimal digit.
pub open spec fn is_digit(c: char) -> bool {
    ('0' as u32) <= (c as u32) && (c as u32) <= ('9' as u32)
}

/// The value of a digit character.
pub open spec fn digit_of(c: char) -> int {
    (c as u32) - ('0' as u32)
}

/// Every character of `s` is a decimal digit.
pub open spec fn all_digits(s: Seq<char>) -> bool {
    forall|i: int| 0 <= i < s.len() ==> is_digit(#[trigger] s[i])
}

/// The decimal value of a digit string.
pub open spec fn dec_val(s: Seq<char>) -> int
    decreases s.len(),
{
    if s.len() == 0 {
        0
    } else {
        dec_val(s.take(s.len() - 1)) * 10 + digit_of(s[s.len() - 1])
    }
}

/// A non-empty digit string whose value fits a 16-bit port number.
pub open spec fn valid_port(s: Seq<char>) -> bool {
    s.len() > 0 && all_digits(s) && dec_val(s) <= 65535
}

/// A digit string's value is never negative.
proof fn lemma_dec_val_nonneg(s: Seq<char>)
    requires
        all_digits(s),
    ensures
        dec_val(s) >= 0,
    decreases s.len(),
{
    if s.len() > 0 {
        let t = s.take(s.len() - 1);
        assert(forall|i: int| 0 <= i < t.len() ==> is_digit(#[trigger] t[i]));
        lemma_dec_val_nonneg(t);
    }
}

/// A digit string's value only grows as digits are appended.
proof fn lemma_dec_val_prefix(s: Seq<char>, k: int)
    requires
        all_digits(s),
        0 <= k <= s.len(),
    ensures
        dec_val(s.take(k)) <= dec_val(s),
    decreases s.len() - k,
{
    if k < s.len() {
        let t = s.take(s.len() - 1);
        assert(forall|i: int| 0 <= i < t.len() ==> is_digit(#[trigger] t[i]));
        if k == s.len() - 1 {
            lemma_dec_val_nonneg(t);
            assert(dec_val(s) == dec_val(t) * 10 + digit_of(s[s.len() - 1]));
        } else {
            lemma_dec_val_prefix(t, k);
            assert(t.take(k) =~= s.take(k));
            lemma_dec_val_nonneg(t);
        }
    } else {
        assert(s.take(k) =~= s);
    }
}

fn is_digit_char(c: char) -> (r: bool)
    ensures
        r == is_digit(c),
{
    let u = c as u32;
    u >= '0' as u32 && u <= '9' as u32
}

/// Parses a decimal port number; `None` unless the text is a non-empty digit
/// string whose value fits 16 bits.
pub fn parse_port(s: &str) -> (r: Option<u16>)
    ensures
        r is Some <==> valid_port(s@),
        r matches Some(v) ==> v as int == dec_val(s@),
{
    let len = s.unicode_len();
    if len == 0 {
        return None;
    }
    let mut value: u32 = 0;
    let mut i: usize = 0;
    while i < len
        invariant
            len == s@.len(),
            i <= len,
            all_digits(s@.take(i as int)),
            value as int == dec_val(s@.take(i as int)),
            value <= 65535,
        decreases len - i,
    {
        let c = s.get_char(i);
        if !is_digit_char(c) {
            return None;
        }
        let d = (c as u32) - ('0' as u32);
        let next = value * 10 + d;
        proof {
            assert(s@.take(i + 1).take(i as int) =~= s@.take(i as int));
            assert(s@.take(i + 1)[i as int] == s@[i as int]);
        }
        if next > 65535 {
            proof {
                if all_digits(s@) {
                    lemma_dec_val_prefix(s@, i + 1);
                }
            }
            return None;
        }
        value = next;
        i += 1;
    }
    proof {
        assert(s@.take(len as int) =~= s@);
    }
    Some(value as u16)
}

/// ASCII whitespace, as it may not appear inside a hostname or user name.
pub open spec fn is_form_ws(c: char) -> bool {
    c == ' ' || c == '\t' || c == '\n' || c == '\r'
}

/// A character acceptable in a hostname.
pub open spec fn hostname_char_ok(c: char) -> bool {
    !(is_form_ws(c) || c == '?' || c == '*' || c == '#')
}

/// A character acceptable in a user name.
pub open spec fn username_char_ok(c: char) -> bool {
    !(is_form_ws(c) || c == '/' || c == ':' || c == '\\')
}

/// A non-empty hostname without whitespace or glob characters.
pub open spec fn hostname_ok(s: Seq<char>) -> bool {
    s.len() > 0 && forall|i: int| 0 <= i < s.len() ==> hostname_char_ok(#[trigger] s[i])
}

/// An empty user name, or one without whitespace or path characters.
pub open spec fn username_ok(s: Seq<char>) -> bool {
    s.len() == 0 || forall|i: int| 0 <= i < s.len() ==> username_char_ok(#[trigger] s[i])
}

fn check_hostname(s: &str) -> (r: bool)
    ensures
        r == hostname_ok(s@),
{
    let len = s.unicode_len();
    if len == 0 {
        return false;
    }
    let mut i: usize = 0;
    while i < len
        invariant
            len == s@.len(),
            i <= len,
            forall|k: int| 0 <= k < i ==> hostname_char_ok(#[trigger] s@[k]),
        decreases len - i,
    {
        let c = s.get_char(i);
        if c == ' ' || c == '\t' || c == '\n' || c == '\r' || c == '?' || c == '*' || c == '#' {
            return false;
        }
        i += 1;
    }
    true
}

fn check_username(s: &str) -> (r: bool)
    ensures
        r == username_ok(s@),
{
    let len = s.unicode_len();
    if len == 0 {
        return true;
    }
    let mut i: usize = 0;
    while i < len
        invariant
            len == s@.len(),
            i <= len,
            forall|k: int| 0 <= k < i ==> username_char_ok(#[trigger] s@[k]),
        decreases len - i,
    {
        let c = s.get_char(i);
        if c == ' ' || c == '\t' || c == '\n' || c == '\r' || c == '/' || c == ':' || c == '\\' {
            return false;
        }
        i += 1;
    }
    true
}

/// `s` without leading quote characters.
pub open spec fn strip_quotes_front(s: Seq<char>) -> Seq<char>
    decreases s.len(),
{
    if s.len() > 0 && s[0] == '"' {
        strip_quotes_front(s.skip(1))
    } else {
        s
    }
}

/// `s` without trailing quote characters.
pub open spec fn strip_quotes_back(s: Seq<char>) -> Seq<char>
    decreases s.len(),
{
    if s.len() > 0 && s[s.len() - 1] == '"' {
        strip_quotes_back(s.take(s.len() - 1))
    } else {
        s
    }
}

/// `s` without surrounding quote characters.
pub open spec fn strip_quotes(s: Seq<char>) -> Seq<char> {
    strip_quotes_back(strip_quotes_front(s))
}

proof fn lemma_strip_quotes_front_skip(s: Seq<char>, i: int)
    requires
        0 <= i <= s.len(),
        forall|k: int| 0 <= k < i ==> s[k] == '"',
        i < s.len() ==> s[i] != '"',
    ensures
        strip_quotes_front(s) == s.skip(i),
    decreases i,
{
    if i == 0 {
        assert(s.skip(0) =~= s);
    } else {
        assert(s[0] == '"');
        assert(forall|k: int| 0 <= k < i - 1 ==> #[trigger] s.skip(1)[k] == '"');
        if i - 1 < s.skip(1).len() {
            assert(s.skip(1)[i - 1] == s[i]);
        }
        lemma_strip_quotes_front_skip(s.skip(1), i - 1);
        assert(s.skip(1).skip(i - 1) =~= s.skip(i));
    }
}

proof fn lemma_strip_quotes_back_take(s: Seq<char>, j: int)
    requires
        0 <= j <= s.len(),
        forall|k: int| j <= k < s.len() ==> s[k] == '"',
        j > 0 ==> s[j - 1] != '"',
    ensures
        strip_quotes_back(s) == s.take(j),
    decreases s.len() - j,
{
    if j == s.len() {
        assert(s.take(j) =~= s);
    } else {
        assert(s[s.len() - 1] == '"');
        let t = s.take(s.len() - 1);
        assert(forall|k: int| j <= k < t.len() ==> #[trigger] t[k] == '"');
        if j > 0 {
            assert(t[j - 1] == s[j - 1]);
        }
        lemma_strip_quotes_back_take(t, j);
        assert(t.take(j) =~= s.take(j));
    }
}

/// Removes surrounding quote characters.
fn strip_quotes_str(s: &str) -> (r: String)
    ensures
        r@ == strip_quotes(s@),
{
    let len = s.unicode_len();
    let mut i: usize = 0;
    while i < len && s.get_char(i) == '"'
        invariant
            len == s@.len(),
            i <= len,
            forall|k: int| 0 <= k < i ==> s@[k] == '"',
        decreases len - i,
    {
        i += 1;
    }
    proof {
        lemma_strip_quotes_front_skip(s@, i as int);
    }
    let mut j: usize = len;
    while j > i && s.get_char(j - 1) == '"'
        invariant
            len == s@.len(),
            i <= j <= len,
            forall|k: int| j <= k < len ==> s@[k] == '"',
        decreases j,
    {
        j -= 1;
    }
    let r = s.substring_char(i, j).to_owned();
    proof {
        let f = s@.skip(i as int);
        assert(forall|k: int| j - i <= k < f.len() ==> #[trigger] f[k] == '"');
        if j > i {
            assert(f[j - i - 1] == s@[j - 1]);
        } else {
            if i < len {
                assert(f[0] == s@[i as int]);
            }
        }
        lemma_strip_quotes_back_take(f, j - i);
        assert(s@.subrange(i as int, j as int) =~= f.take(j - i));
    }
    r
}

/// The sanitized host pattern: trimmed, and wrapped in quotes when it holds
/// a space and is not already quoted on either side.
pub open spec fn sanitize_host_name_spec(s: Seq<char>) -> Seq<char> {
    let t = trim_spec(s);
    let quoted_start = t.len() > 0 && t[0] == '"';
    let quoted_end = t.len() > 0 && t[t.len() - 1] == '"';
    if !quoted_start && !quoted_end && spec_contains(t, seq![' ']) {
        seq!['"'] + t + seq!['"']
    } else {
        t
    }
}

/// Form for adding or editing an SSH host: the four field texts and the
/// cyclic focus position.
pub struct AddHostForm {
    /// Host name (pattern).
    pub host_name: String,
    /// Hostname or IP address.
    pub hostname: String,
    /// Username (optional).
    pub username: String,
    /// Port (optional, the SSH default applies when empty).
    pub port: String,
    /// Current active field index.
    pub active_field: usize,
    /// Total number of fields.
    pub field_count: usize,
}

/// Whether the form's values pass validation: both required fields are
/// filled, the hostname and username are well-formed, and the port, when
/// given, is a valid 16-bit number.
pub open spec fn form_valid(f: AddHostForm) -> bool {
    &&& trim_spec(f.host_name@).len() > 0
    &&& trim_spec(f.hostname@).len() > 0
    &&& hostname_ok(trim_spec(f.hostname@))
    &&& username_ok(trim_spec(f.username@))
    &&& (trim_spec(f.port@).len() == 0 || valid_port(trim_spec(f.port@)))
}

impl Default for AddHostForm {
    /// An empty form focused on the first field.
    fn default() -> (f: Self)
        ensures
            f.host_name@.len() == 0,
            f.hostname@.len() == 0,
            f.username@.len() == 0,
            f.port@.len() == 0,
            f.active_field == 0,
            f.field_count == 4,
    {
        AddHostForm {
            host_name: String::new(),
            hostname: String::new(),
            username: String::new(),
            port: String::new(),
            active_field: 0,
            field_count: 4,
        }
    }
}

impl AddHostForm {
    /// Creates an empty form focused on the first field.
    pub fn new() -> (f: Self)
        ensures
            f.host_name@.len() == 0,
            f.hostname@.len() == 0,
            f.username@.len() == 0,
            f.port@.len() == 0,
            f.active_field == 0,
            f.field_count == 4,
    {
        AddHostForm {
            host_name: String::new(),
            hostname: String::new(),
            username: String::new(),
            port: String::new(),
            active_field: 0,
            field_count: 4,
        }
    }

    /// Appends a typed character to the active field; the port field only
    /// accepts digits, and positions past the known fields take nothing.
    pub fn enter_char(&mut self, c: char)
        ensures
            old(self).active_field == 0 ==> *final(self) == (AddHostForm {
                host_name: final(self).host_name,
                ..*old(self)
            }) && final(self).host_name@ == old(self).host_name@.push(c),
            old(self).active_field == 1 ==> *final(self) == (AddHostForm {
                hostname: final(self).hostname,
                ..*old(self)
            }) && final(self).hostname@ == old(self).hostname@.push(c),
            old(self).active_field == 2 ==> *final(self) == (AddHostForm {
                username: final(self).username,
                ..*old(self)
            }) && final(self).username@ == old(self).username@.push(c),
            (old(self).active_field == 3 && is_digit(c)) ==> *final(self) == (AddHostForm {
                port: final(self).port,
                ..*old(self)
            }) && final(self).port@ == old(self).port@.push(c),
            (old(self).active_field == 3 && !is_digit(c)) ==> *final(self) == *old(self),
            old(self).active_field > 3 ==> *final(self) == *old(self),
    {
        let cs = crate::strutil::char_to_string(c);
        if self.active_field == 0 {
            self.host_name.append(cs.as_str());
            proof {
                assert(self.host_name@ =~= old(self).host_name@.push(c));
            }
        } else if self.active_field == 1 {
            self.hostname.append(cs.as_str());
            proof {
                assert(self.hostname@ =~= old(self).hostname@.push(c));
            }
        } else if self.active_field == 2 {
            self.username.append(cs.as_str());
            proof {
                assert(self.username@ =~= old(self).username@.push(c));
            }
        } else if self.active_field == 3 {
            if is_digit_char(c) {
                self.port.append(cs.as_str());
                proof {
                    assert(self.port@ =~= old(self).port@.push(c));
                }
            }
        }
    }

    /// Moves the focus to the next field, wrapping past the last.
    pub fn next_field(&mut self)
        requires
            old(self).field_count > 0,
            old(self).active_field < old(self).field_count,
        ensures
            final(self).active_field as int == (old(self).active_field as int + 1) % (old(self).field_count as int),
            final(self).host_name == old(self).host_name,
            final(self).hostname == old(self).hostname,
            final(self).username == old(self).username,
            final(self).port == old(self).port,
            final(self).field_count == old(self).field_count,
    {
        self.active_field = (self.active_field + 1) % self.field_count;
    }

    /// Moves the focus to the previous field, wrapping past the first.
    pub fn previous_field(&mut self)
        requires
            old(self).field_count > 0,
        ensures
            final(self).active_field as int == (if old(self).active_field == 0 {
                old(self).field_count as int - 1
            } else {
                old(self).active_field as int - 1
            }),
            final(self).host_name == old(self).host_name,
            final(self).hostname == old(self).hostname,
            final(self).username == old(self).username,
            final(self).port == old(self).port,
            final(self).field_count == old(self).field_count,
    {
        self.active_field = if self.active_field == 0 {
            self.field_count - 1
        } else {
            self.active_field - 1
        };
    }

    /// Whether the form passes validation.
    pub fn is_valid(&self) -> (r: bool)
        ensures
            r == form_valid(*self),
    {
        let host_name = trim_str(self.host_name.as_str());
        let hostname = trim_str(self.hostname.as_str());
        let username = trim_str(self.username.as_str());
        let port = trim_str(self.port.as_str());
        let has_required = host_name.as_str().unicode_len() > 0 && hostname.as_str().unicode_len()
            > 0;
        let hostname_valid = check_hostname(hostname.as_str());
        let username_valid = check_username(username.as_str());
        let port_valid = if port.as_str().unicode_len() == 0 {
            true
        } else {
            parse_port(port.as_str()).is_some()
        };
        has_required && hostname_valid && username_valid && port_valid
    }

    /// The validation failure to show, if any: required fields first, then
    /// the hostname, the username, and the port.
    pub fn validation_error(&self) -> (r: Option<String>)
        ensures
            r is None <==> form_valid(*self),
            (trim_spec(self.host_name@).len() == 0 || trim_spec(self.hostname@).len() == 0)
                ==> (r matches Some(m) && m@ == "Please fill out required fields"@),
            (trim_spec(self.host_name@).len() > 0 && trim_spec(self.hostname@).len() > 0
                && !hostname_ok(trim_spec(self.hostname@))) ==> (r matches Some(m) && m@
                == "Invalid hostname format"@),
            (trim_spec(self.host_name@).len() > 0 && trim_spec(self.hostname@).len() > 0
                && hostname_ok(trim_spec(self.hostname@)) && !username_ok(
                trim_spec(self.username@),
            )) ==> (r matches Some(m) && m@ == "Invalid username format"@),
            (trim_spec(self.host_name@).len() > 0 && trim_spec(self.hostname@).len() > 0
                && hostname_ok(trim_spec(self.hostname@)) && username_ok(trim_spec(self.username@))
                && trim_spec(self.port@).len() > 0 && !valid_port(trim_spec(self.port@))) ==> (
            r matches Some(m) && m@ == "Port must be a valid number (0-65535)"@),
    {
        let host_name = trim_str(self.host_name.as_str());
        let hostname = trim_str(self.hostname.as_str());
        if host_name.as_str().unicode_len() == 0 || hostname.as_str().unicode_len() == 0 {
            return Some(String::from_str("Please fill out required fields"));
        }
        if !check_hostname(hostname.as_str()) {
            return Some(String::from_str("Invalid hostname format"));
        }
        let username = trim_str(self.username.as_str());
        if !check_username(username.as_str()) {
            return Some(String::from_str("Invalid username format"));
        }
        let port = trim_str(self.port.as_str());
        if port.as_str().unicode_len() > 0 && parse_port(port.as_str()).is_none() {
            return Some(String::from_str("Port must be a valid number (0-65535)"));
        }
        None
    }

    /// The sanitized host pattern: trimmed, quoted when it holds a space.
    pub fn sanitize_host_name(&self) -> (r: String)
        ensures
            r@ == sanitize_host_name_spec(self.host_name@),
    {
        let t = trim_str(self.host_name.as_str());
        let len = t.as_str().unicode_len();
        let quoted_start = len > 0 && t.as_str().get_char(0) == '"';
        let quoted_end = len > 0 && t.as_str().get_char(len - 1) == '"';
        proof {
            reveal_strlit(" ");
            assert(" "@ =~= seq![' ']);
            reveal_strlit("\"");
            assert("\""@ =~= seq!['"']);
        }
        if !quoted_start && !quoted_end && str_contains(t.as_str(), " ") {
            let mut s = String::from_str("\"");
            s.append(t.as_str());
            s.append("\"");
            proof {
                assert(s@ =~= seq!['"'] + trim_spec(self.host_name@) + seq!['"']);
            }
            s
        } else {
            t
        }
    }

    /// The sanitized hostname: trimmed.
    pub fn sanitize_hostname(&self) -> (r: String)
        ensures
            r@ == trim_spec(self.hostname@),
    {
        trim_str(self.hostname.as_str())
    }

    /// The sanitized username: trimmed.
    pub fn sanitize_username(&self) -> (r: String)
        ensures
            r@ == trim_spec(self.username@),
    {
        trim_str(self.username.as_str())
    }

    /// The sanitized port: trimmed, and absent when empty.
    pub fn sanitize_port(&self) -> (r: Option<String>)
        ensures
            trim_spec(self.port@).len() == 0 ==> r is None,
            trim_spec(self.port@).len() > 0 ==> (r matches Some(p) && p@ == trim_spec(self.port@)),
    {
        let port = trim_str(self.port.as_str());
        if port.as_str().unicode_len() == 0 {
            None
        } else {
            Some(port)
        }
    }

    /// The configuration-entry text for this form's values, without
    /// surrounding blank lines.
    pub fn build_host_entry(&self) -> (r: String)
        ensures
            r@ == build_entry_spec(*self),
    {
        let host_name = self.sanitize_host_name();
        let destination = self.sanitize_hostname();
        let username = self.sanitize_username();
        let port = self.sanitize_port();
        let mut entry = String::from_str("Host ");
        entry.append(host_name.as_str());
        entry.append("\n  Hostname ");
        entry.append(destination.as_str());
        if username.as_str().unicode_len() > 0 {
            entry.append("\n  User ");
            entry.append(username.as_str());
        }
        if let Some(p) = port {
            entry.append("\n  Port ");
            entry.append(p.as_str());
        }
        proof {
            assert(entry@ =~= build_entry_spec(*self));
        }
        entry
    }

    /// Whether the configuration text already declares the sanitized host
    /// pattern, comparing with quotes stripped.
    pub fn check_duplicate(&self, config_content: &str) -> (r: bool)
        ensures
            !form_valid(*self) ==> r == false,
            form_valid(*self) ==> r == content_has_host(
                config_content@,
                sanitize_host_name_spec(self.host_name@),
            ),
    {
        if !self.is_valid() {
            return false;
        }
        let host_name = self.sanitize_host_name();
        host_exists(config_content, host_name.as_str())
    }
}

/// The configuration-entry text of a form: `Host` and `Hostname` lines, plus
/// `User` and `Port` lines when those fields are filled.
pub open spec fn build_entry_spec(f: AddHostForm) -> Seq<char> {
    "Host "@ + sanitize_host_name_spec(f.host_name@) + "\n  Hostname "@ + trim_spec(f.hostname@) + (
    if trim_spec(f.username@).len() > 0 {
        "\n  User "@ + trim_spec(f.username@)
    } else {
        Seq::empty()
    }) + (if trim_spec(f.port@).len() > 0 {
        "\n  Port "@ + trim_spec(f.port@)
    } else {
        Seq::empty()
    })
}

/// Some line of `content` declares host pattern `name` (quotes stripped on
/// both sides of the comparison).
pub open spec fn content_has_host(content: Seq<char>, name: Seq<char>) -> bool {
    exists|i: int|
        0 <= i < spec_lines(content).len() && line_declares_host(
            #[trigger] spec_lines(content)[i],
            name,
        )
}

/// A `Host` line whose pattern equals `name`, quotes stripped.
pub open spec fn line_declares_host(line: Seq<char>, name: Seq<char>) -> bool {
    let t = trim_spec(line);
    starts_with(t, "Host "@) && strip_quotes(trim_spec(t.skip(5))) == strip_quotes(name)
}

/// Whether the configuration text already declares host pattern `host_name`.
pub fn host_exists(config_content: &str, host_name: &str) -> (r: bool)
    ensures
        r == content_has_host(config_content@, host_name@),
{
    let clean_name = strip_quotes_str(host_name);
    let lines = split_lines(config_content);
    let n = lines.len();
    let mut i: usize = 0;
    while i < n
        invariant
            n == lines@.len(),
            n == lines.deep_view().len(),
            lines.deep_view() == spec_lines(config_content@),
            clean_name@ == strip_quotes(host_name@),
            i <= n,
            forall|k: int|
                0 <= k < i ==> !line_declares_host(#[trigger] lines.deep_view()[k], host_name@),
        decreases n - i,
    {
        proof {
            reveal_strlit("Host ");
            assert("Host "@.len() == 5);
            assert(lines.deep_view()[i as int] == lines@[i as int]@);
        }
        let t = trim_str(lines[i].as_str());
        if str_starts_with(t.as_str(), "Host ") {
            let tlen = t.as_str().unicode_len();
            let pattern = trim_str(t.as_str().substring_char(5, tlen));
            proof {
                assert(t@.subrange(5, t@.len() as int) =~= t@.skip(5));
            }
            let clean_pattern = strip_quotes_str(pattern.as_str());
            if crate::strutil::str_eq(clean_pattern.as_str(), clean_name.as_str()) {
                return true;
            }
        }
        i += 1;
    }
    false
}

/// The lines the rewrite keeps: the matching host block is dropped and the
/// new entry text stands in its place; every other line is kept as it was.
pub open spec fn replace_lines(
    lines: Seq<Seq<char>>,
    name: Seq<char>,
    entry: Seq<char>,
    skipping: bool,
    out: Seq<Seq<char>>,
) -> Seq<Seq<char>>
    decreases lines.len(),
{
    if lines.len() == 0 {
        out
    } else {
        let line = lines[0];
        let t = trim_spec(line);
        let rest = lines.skip(1);
        if starts_with(t, "Host "@) {
            if strip_quotes(trim_spec(t.skip(5))) == strip_quotes(name) {
                replace_lines(rest, name, entry, true, out.push(entry))
            } else {
                replace_lines(rest, name, entry, false, out.push(line))
            }
        } else if skipping {
            replace_lines(rest, name, entry, true, out)
        } else {
            replace_lines(rest, name, entry, false, out.push(line))
        }
    }
}

/// The lines joined with single newlines, no trailing newline.
pub open spec fn join_lines(lines: Seq<Seq<char>>) -> Seq<char>
    decreases lines.len(),
{
    if lines.len() == 0 {
        Seq::empty()
    } else if lines.len() == 1 {
        lines[0]
    } else {
        lines[0] + seq!['\n'] + join_lines(lines.skip(1))
    }
}

/// Appending a line to a join adds one separator ahead of it (none when the
/// join was empty).
proof fn lemma_join_snoc(lines: Seq<Seq<char>>, x: Seq<char>)
    ensures
        lines.len() == 0 ==> join_lines(lines.push(x)) == x,
        lines.len() > 0 ==> join_lines(lines.push(x)) == join_lines(lines) + seq!['\n'] + x,
    decreases lines.len(),
{
    if lines.len() == 0 {
        assert(join_lines(lines.push(x)) == lines.push(x)[0]);
        assert(lines.push(x)[0] == x);
    } else {
        let p = lines.push(x);
        assert(p.len() >= 2);
        assert(p[0] == lines[0]);
        assert(p.skip(1) =~= lines.skip(1).push(x));
        lemma_join_snoc(lines.skip(1), x);
        if lines.len() == 1 {
            assert(lines.skip(1).len() == 0);
            assert(join_lines(p) == p[0] + seq!['\n'] + x);
            assert(join_lines(lines) == lines[0]);
        } else {
            assert(join_lines(p) == p[0] + seq!['\n'] + (join_lines(lines.skip(1)) + seq!['\n']
                + x));
            assert(join_lines(lines) == lines[0] + seq!['\n'] + join_lines(lines.skip(1)));
            assert(lines[0] + seq!['\n'] + (join_lines(lines.skip(1)) + seq!['\n'] + x) =~= (
            lines[0] + seq!['\n'] + join_lines(lines.skip(1))) + seq!['\n'] + x);
        }
    }
}

/// Joins lines with single newlines.
fn join_strings(lines: &Vec<String>) -> (r: String)
    ensures
        r@ == join_lines(lines.deep_view()),
{
    proof {
        reveal_strlit("\n");
        assert("\n"@ =~= seq!['\n']);
    }
    let mut s = String::new();
    let n = lines.len();
    let mut i: usize = 0;
    proof {
        assert(lines.deep_view().take(0) =~= Seq::<Seq<char>>::empty());
    }
    while i < n
        invariant
            n == lines@.len(),
            n == lines.deep_view().len(),
            i <= n,
            "\n"@ =~= seq!['\n'],
            s@ == join_lines(lines.deep_view().take(i as int)),
        decreases n - i,
    {
        let ghost prefix = lines.deep_view().take(i as int);
        if i > 0 {
            s.append("\n");
        }
        s.append(lines[i].as_str());
        proof {
            assert(lines.deep_view()[i as int] == lines@[i as int]@);
            assert(lines.deep_view().take(i + 1) =~= prefix.push(lines.deep_view()[i as int]));
            lemma_join_snoc(prefix, lines.deep_view()[i as int]);
            if i == 0 {
                assert(s@ =~= lines.deep_view()[i as int]);
            } else {
                assert(s@ =~= join_lines(prefix) + seq!['\n'] + lines.deep_view()[i as int]);
            }
        }
        i += 1;
    }
    proof {
        assert(lines.deep_view().take(n as int) =~= lines.deep_view());
    }
    s
}

impl AddHostForm {
    /// The entry text appended when saving a new host: the entry framed by
    /// blank separation and a final newline.
    pub fn save_entry_text(&self) -> (r: String)
        ensures
            r@ == "\n"@ + build_entry_spec(*self) + "\n"@,
    {
        let entry = self.build_host_entry();
        let mut s = String::from_str("\n");
        s.append(entry.as_str());
        s.append("\n");
        proof {
            assert(s@ =~= "\n"@ + build_entry_spec(*self) + "\n"@);
        }
        s
    }

    /// Fills the form from an existing host record, for editing.
    pub fn populate_from_host(&mut self, host: &crate::host::Host)
        ensures
            final(self).host_name@ == host.name@,
            final(self).hostname@ == host.destination@,
            host.user matches Some(u) ==> final(self).username@ == u@,
            host.user is None ==> final(self).username == old(self).username,
            host.port matches Some(p) ==> final(self).port@ == p@,
            host.port is None ==> final(self).port == old(self).port,
            final(self).active_field == old(self).active_field,
            final(self).field_count == old(self).field_count,
    {
        self.host_name = host.name.clone();
        self.hostname = host.destination.clone();
        if let Some(user) = &host.user {
            self.username = user.clone();
        }
        if let Some(port) = &host.port {
            self.port = port.clone();
        }
    }

    /// Rewrites configuration text, replacing the block of the host named
    /// `original_host_name` (quotes stripped for the comparison) with this
    /// form's entry; all other lines are kept, joined by single newlines.
    pub fn replace_host_entry(&self, content: &str, original_host_name: &str) -> (r: String)
        ensures
            r@ == join_lines(
                replace_lines(
                    spec_lines(content@),
                    original_host_name@,
                    build_entry_spec(*self),
                    false,
                    Seq::empty(),
                ),
            ),
    {
        let clean_name = strip_quotes_str(original_host_name);
        let entry = self.build_host_entry();
        let lines = split_lines(content);
        let mut kept: Vec<String> = Vec::new();
        let mut skipping = false;
        let n = lines.len();
        let mut i: usize = 0;
        proof {
            assert(lines.deep_view().skip(0) =~= spec_lines(content@));
            assert(kept.deep_view() =~= Seq::<Seq<char>>::empty());
        }
        while i < n
            invariant
                n == lines@.len(),
                n == lines.deep_view().len(),
                i <= n,
                clean_name@ == strip_quotes(original_host_name@),
                entry@ == build_entry_spec(*self),
                replace_lines(
                    spec_lines(content@),
                    original_host_name@,
                    build_entry_spec(*self),
                    false,
                    Seq::empty(),
                ) == replace_lines(
                    lines.deep_view().skip(i as int),
                    original_host_name@,
                    build_entry_spec(*self),
                    skipping,
                    kept.deep_view(),
                ),
            decreases n - i,
        {
            let ghost rest = lines.deep_view().skip(i as int);
            let ghost old_kept = kept.deep_view();
            proof {
                reveal_strlit("Host ");
                assert("Host "@.len() == 5);
                assert(lines.deep_view()[i as int] == lines@[i as int]@);
                assert(rest[0] == lines.deep_view()[i as int]);
                assert(rest.skip(1) =~= lines.deep_view().skip(i + 1));
            }
            let t = trim_str(lines[i].as_str());
            if str_starts_with(t.as_str(), "Host ") {
                let tlen = t.as_str().unicode_len();
                let pattern = trim_str(t.as_str().substring_char(5, tlen));
                proof {
                    assert(t@.subrange(5, t@.len() as int) =~= t@.skip(5));
                }
                let clean_pattern = strip_quotes_str(pattern.as_str());
                if crate::strutil::str_eq(clean_pattern.as_str(), clean_name.as_str()) {
                    kept.push(entry.clone());
                    skipping = true;
                    proof {
                        assert(kept.deep_view() =~= old_kept.push(build_entry_spec(*self)));
                    }
                } else {
                    kept.push(lines[i].clone());
                    skipping = false;
                    proof {
                        assert(kept.deep_view() =~= old_kept.push(lines.deep_view()[i as int]));
                    }
                }
            } else if !skipping {
                kept.push(lines[i].clone());
                proof {
                    assert(kept.deep_view() =~= old_kept.push(lines.deep_view()[i as int]));
                }
            }
            i += 1;
        }
        proof {
            assert(lines.deep_view().skip(n as int) =~= Seq::<Seq<char>>::empty());
        }
        join_strings(&kept)
    }
}

/// A `Host` line whose quote-stripped pattern equals `name` as given.
pub open spec fn line_names_host(line: Seq<char>, name: Seq<char>) -> bool {
    let t = trim_spec(line);
    starts_with(t, "Host "@) && strip_quotes(trim_spec(t.skip(5))) == name
}

/// The lines left after dropping the block of the host named `name`; every
/// other line is kept as it was.
pub open spec fn remove_lines(
    lines: Seq<Seq<char>>,
    name: Seq<char>,
    skipping: bool,
    out: Seq<Seq<char>>,
) -> Seq<Seq<char>>
    decreases lines.len(),
{
    if lines.len() == 0 {
        out
    } else {
        let line = lines[0];
        let rest = lines.skip(1);
        if line_names_host(line, name) {
            remove_lines(rest, name, true, out)
        } else if starts_with(trim_spec(line), "Host "@) {
            remove_lines(rest, name, false, out.push(line))
        } else if skipping {
            remove_lines(rest, name, true, out)
        } else {
            remove_lines(rest, name, false, out.push(line))
        }
    }
}

/// Some line of `content` declares exactly the host named `name`.
pub open spec fn content_names_host(content: Seq<char>, name: Seq<char>) -> bool {
    exists|i: int|
        0 <= i < spec_lines(content).len() && line_names_host(#[trigger] spec_lines(content)[i], name)
}

/// Drops the block of the host named `host_name` from configuration text;
/// refuses when no such host is declared. Other lines are kept, joined by
/// single newlines.
pub fn remove_host_entry(content: &str, host_name: &str) -> (r: Result<String, String>)
    ensures
        r is Ok <==> content_names_host(content@, host_name@),
        r matches Ok(s) ==> s@ == join_lines(
            remove_lines(spec_lines(content@), host_name@, false, Seq::empty()),
        ),
        r matches Err(m) ==> m@ == "Host '"@ + host_name@ + "' not found in SSH config file"@,
{
    let lines = split_lines(content);
    let mut kept: Vec<String> = Vec::new();
    let mut skipping = false;
    let mut found = false;
    let n = lines.len();
    let mut i: usize = 0;
    proof {
        assert(lines.deep_view().skip(0) =~= spec_lines(content@));
        assert(kept.deep_view() =~= Seq::<Seq<char>>::empty());
    }
    while i < n
        invariant
            n == lines@.len(),
            n == lines.deep_view().len(),
            i <= n,
            remove_lines(spec_lines(content@), host_name@, false, Seq::empty()) == remove_lines(
                lines.deep_view().skip(i as int),
                host_name@,
                skipping,
                kept.deep_view(),
            ),
            found <==> exists|k: int|
                0 <= k < i && line_names_host(#[trigger] lines.deep_view()[k], host_name@),
        decreases n - i,
    {
        let ghost rest = lines.deep_view().skip(i as int);
        let ghost old_kept = kept.deep_view();
        proof {
            reveal_strlit("Host ");
            assert("Host "@.len() == 5);
            assert(lines.deep_view()[i as int] == lines@[i as int]@);
            assert(rest[0] == lines.deep_view()[i as int]);
            assert(rest.skip(1) =~= lines.deep_view().skip(i + 1));
        }
        let t = trim_str(lines[i].as_str());
        let mut matched = false;
        if str_starts_with(t.as_str(), "Host ") {
            let tlen = t.as_str().unicode_len();
            let pattern = trim_str(t.as_str().substring_char(5, tlen));
            proof {
                assert(t@.subrange(5, t@.len() as int) =~= t@.skip(5));
            }
            let clean_pattern = strip_quotes_str(pattern.as_str());
            if crate::strutil::str_eq(clean_pattern.as_str(), host_name) {
                matched = true;
            }
        }
        if matched {
            skipping = true;
            found = true;
            proof {
                assert(line_names_host(lines.deep_view()[i as int], host_name@));
            }
        } else if str_starts_with(t.as_str(), "Host ") {
            kept.push(lines[i].clone());
            skipping = false;
            proof {
                assert(kept.deep_view() =~= old_kept.push(lines.deep_view()[i as int]));
            }
        } else if !skipping {
            kept.push(lines[i].clone());
            proof {
                assert(kept.deep_view() =~= old_kept.push(lines.deep_view()[i as int]));
            }
        }
        proof {
            if !matched {
                assert(!line_names_host(lines.deep_view()[i as int], host_name@));
            }
        }
        i += 1;
    }
    proof {
        assert(lines.deep_view().skip(n as int) =~= Seq::<Seq<char>>::empty());
    }
    if !found {
        let mut m = String::from_str("Host '");
        m.append(host_name);
        m.append("' not found in SSH config file");
        proof {
            assert(m@ =~= "Host '"@ + host_name@ + "' not found in SSH config file"@);
        }
        return Err(m);
    }
    Ok(join_strings(&kept))
}

} // verus!
