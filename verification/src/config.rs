//! Reading host records out of SSH configuration text: `Host` lines open a
//! block named by their first pattern (remaining patterns become aliases),
//! and `Hostname`, `User`, `Port` and `ProxyCommand` lines fill the record
//! in. Unknown keywords and comments are passed over; a host without a
//! `Hostname` keeps its own name as the destination.

use crate::host::Host;
use crate::strutil::{spec_lines, split_lines};
use vstd::prelude::*;

verus! {

/// The specification-level image of a [`Host`].
pub ghost struct HostV {
    pub name: Seq<char>,
    pub aliases: Seq<char>,
    pub user: Option<Seq<char>>,
    pub destination: Seq<char>,
    pub port: Option<Seq<char>>,
    pub proxy_command: Option<Seq<char>>,
}

/// The image of an executable host record.
pub open spec fn host_view(h: Host) -> HostV {
    HostV {
        name: h.name@,
        aliases: h.aliases@,
        user: h.user.deep_view(),
        destination: h.destination@,
        port: h.port.deep_view(),
        proxy_command: h.proxy_command.deep_view(),
    }
}

/// Whitespace inside a configuration line.
pub open spec fn is_cfg_ws(c: char) -> bool {
    c == ' ' || c == '\t' || c == '\r'
}

/// `s` without its leading whitespace.
pub open spec fn trim_front(s: Seq<char>) -> Seq<char>
    decreases s.len(),
{
    if s.len() > 0 && is_cfg_ws(s[0]) {
        trim_front(s.skip(1))
    } else {
        s
    }
}

/// `s` without its trailing whitespace.
pub open spec fn trim_back(s: Seq<char>) -> Seq<char>
    decreases s.len(),
{
    if s.len() > 0 && is_cfg_ws(s[s.len() - 1]) {
        trim_back(s.take(s.len() - 1))
    } else {
        s
    }
}

/// `s` without leading and trailing whitespace.
pub open spec fn trim_spec(s: Seq<char>) -> Seq<char> {
    trim_back(trim_front(s))
}

/// `p` is a prefix of `s`.
pub open spec fn starts_with(s: Seq<char>, p: Seq<char>) -> bool {
    s.len() >= p.len() && s.subrange(0, p.len() as int) == p
}

/// The length of the first whitespace-separated word of `s`.
pub open spec fn first_word_len(s: Seq<char>) -> int
    decreases s.len(),
{
    if s.len() == 0 || is_cfg_ws(s[0]) {
        0
    } else {
        1 + first_word_len(s.skip(1))
    }
}

/// A host block as it is being assembled.
pub ghost struct BlockV {
    pub name: Seq<char>,
    pub aliases: Seq<char>,
    pub user: Option<Seq<char>>,
    pub hostname: Seq<char>,
    pub port: Option<Seq<char>>,
    pub proxy_command: Option<Seq<char>>,
}

/// The record a finished block yields: a host whose destination falls back
/// to its name when no `Hostname` line was seen.
pub open spec fn finish_block(b: BlockV) -> HostV {
    HostV {
        name: b.name,
        aliases: b.aliases,
        user: b.user,
        destination: if b.hostname.len() == 0 {
            b.name
        } else {
            b.hostname
        },
        port: b.port,
        proxy_command: b.proxy_command,
    }
}

/// A fresh block for the given `Host` patterns: the first word is the name,
/// the rest are the aliases.
pub open spec fn open_block(patterns: Seq<char>) -> BlockV {
    let w = first_word_len(patterns);
    BlockV {
        name: patterns.take(w),
        aliases: trim_spec(patterns.skip(w)),
        user: None,
        hostname: Seq::empty(),
        port: None,
        proxy_command: None,
    }
}

/// The hosts read from `lines`, folding line by line: `done` holds finished
/// blocks and `cur` the block being assembled.
pub open spec fn hosts_from_lines(lines: Seq<Seq<char>>, done: Seq<HostV>, cur: Option<BlockV>) -> Seq<HostV>
    decreases lines.len(),
{
    if lines.len() == 0 {
        match cur {
            Some(b) => done.push(finish_block(b)),
            None => done,
        }
    } else {
        let t = trim_spec(lines[0]);
        let rest = lines.skip(1);
        if t.len() == 0 || t[0] == '#' {
            hosts_from_lines(rest, done, cur)
        } else if starts_with(t, "Host "@) {
            let patterns = trim_spec(t.skip(5));
            let done2 = match cur {
                Some(b) => done.push(finish_block(b)),
                None => done,
            };
            hosts_from_lines(rest, done2, Some(open_block(patterns)))
        } else {
            match cur {
                Some(b) => {
                    if starts_with(t, "Hostname "@) {
                        hosts_from_lines(
                            rest,
                            done,
                            Some(BlockV { hostname: trim_spec(t.skip(9)), ..b }),
                        )
                    } else if starts_with(t, "User "@) {
                        hosts_from_lines(
                            rest,
                            done,
                            Some(BlockV { user: Some(trim_spec(t.skip(5))), ..b }),
                        )
                    } else if starts_with(t, "Port "@) {
                        hosts_from_lines(
                            rest,
                            done,
                            Some(BlockV { port: Some(trim_spec(t.skip(5))), ..b }),
                        )
                    } else if starts_with(t, "ProxyCommand "@) {
                        hosts_from_lines(
                            rest,
                            done,
                            Some(BlockV { proxy_command: Some(trim_spec(t.skip(13))), ..b }),
                        )
                    } else {
                        hosts_from_lines(rest, done, cur)
                    }
                },
                None => hosts_from_lines(rest, done, cur),
            }
        }
    }
}

/// The hosts described by a configuration text.
pub open spec fn spec_parse_config(content: Seq<char>) -> Seq<HostV> {
    hosts_from_lines(spec_lines(content), Seq::empty(), None)
}

fn is_ws_char(c: char) -> (r: bool)
    ensures
        r == is_cfg_ws(c),
{
    c == ' ' || c == '\t' || c == '\r'
}

/// Leading whitespace skips to the first non-whitespace position.
proof fn lemma_trim_front_skip(s: Seq<char>, i: int)
    requires
        0 <= i <= s.len(),
        forall|k: int| 0 <= k < i ==> is_cfg_ws(s[k]),
        i < s.len() ==> !is_cfg_ws(s[i]),
    ensures
        trim_front(s) == s.skip(i),
    decreases i,
{
    if i == 0 {
        if s.len() > 0 {
            assert(!is_cfg_ws(s[0]));
        }
        assert(s.skip(0) =~= s);
    } else {
        assert(is_cfg_ws(s[0]));
        assert(s.skip(1).len() == s.len() - 1);
        assert(forall|k: int| 0 <= k < i - 1 ==> is_cfg_ws(#[trigger] s.skip(1)[k]));
        if i - 1 < s.skip(1).len() {
            assert(s.skip(1)[i - 1] == s[i]);
        }
        lemma_trim_front_skip(s.skip(1), i - 1);
        assert(s.skip(1).skip(i - 1) =~= s.skip(i));
    }
}

/// Trailing whitespace trims back to the last non-whitespace position.
proof fn lemma_trim_back_take(s: Seq<char>, j: int)
    requires
        0 <= j <= s.len(),
        forall|k: int| j <= k < s.len() ==> is_cfg_ws(s[k]),
        j > 0 ==> !is_cfg_ws(s[j - 1]),
    ensures
        trim_back(s) == s.take(j),
    decreases s.len() - j,
{
    if j == s.len() {
        assert(s.take(j) =~= s);
        if s.len() > 0 {
            assert(!is_cfg_ws(s[s.len() - 1]));
        }
    } else {
        assert(is_cfg_ws(s[s.len() - 1]));
        let t = s.take(s.len() - 1);
        assert(forall|k: int| j <= k < t.len() ==> is_cfg_ws(#[trigger] t[k]));
        if j > 0 {
            assert(t[j - 1] == s[j - 1]);
        }
        lemma_trim_back_take(t, j);
        assert(t.take(j) =~= s.take(j));
    }
}

/// Removes leading and trailing whitespace.
pub fn trim_str(s: &str) -> (r: String)
    ensures
        r@ == trim_spec(s@),
{
    let len = s.unicode_len();
    let mut i: usize = 0;
    while i < len && is_ws_char(s.get_char(i))
        invariant
            len == s@.len(),
            i <= len,
            forall|k: int| 0 <= k < i ==> is_cfg_ws(s@[k]),
        decreases len - i,
    {
        i += 1;
    }
    proof {
        lemma_trim_front_skip(s@, i as int);
    }
    let mut j: usize = len;
    while j > i && is_ws_char(s.get_char(j - 1))
        invariant
            len == s@.len(),
            i <= j <= len,
            forall|k: int| j <= k < len ==> is_cfg_ws(s@[k]),
        decreases j,
    {
        j -= 1;
    }
    let r = s.substring_char(i, j).to_owned();
    proof {
        let f = s@.skip(i as int);
        assert(forall|k: int| j - i <= k < f.len() ==> is_cfg_ws(#[trigger] f[k]));
        if j > i {
            assert(f[j - i - 1] == s@[j - 1]);
            assert(!is_cfg_ws(f[j - i - 1]));
        } else {
            if i < len {
                assert(!is_cfg_ws(s@[i as int]));
                assert(!is_cfg_ws(f[0]));
            }
        }
        lemma_trim_back_take(f, j - i);
        assert(s@.subrange(i as int, j as int) =~= f.take(j - i));
    }
    r
}

/// Whether `p` is a prefix of `s`.
pub(crate) fn str_starts_with(s: &str, p: &str) -> (r: bool)
    ensures
        r == starts_with(s@, p@),
{
    let slen = s.unicode_len();
    let plen = p.unicode_len();
    if plen > slen {
        return false;
    }
    let mut k: usize = 0;
    while k < plen
        invariant
            slen == s@.len(),
            plen == p@.len(),
            plen <= slen,
            k <= plen,
            forall|t: int| 0 <= t < k ==> s@[t] == p@[t],
        decreases plen - k,
    {
        if s.get_char(k) != p.get_char(k) {
            proof {
                assert(s@.subrange(0, plen as int)[k as int] == s@[k as int]);
            }
            return false;
        }
        k += 1;
    }
    proof {
        assert(s@.subrange(0, plen as int) =~= p@);
    }
    true
}

/// The first whitespace-separated word of `s`.
fn first_word(s: &str) -> (r: String)
    ensures
        r@ == s@.take(first_word_len(s@)),
{
    let len = s.unicode_len();
    let mut i: usize = 0;
    while i < len && !is_ws_char(s.get_char(i))
        invariant
            len == s@.len(),
            i <= len,
            forall|k: int| 0 <= k < i ==> !is_cfg_ws(s@[k]),
        decreases len - i,
    {
        i += 1;
    }
    proof {
        lemma_first_word_len(s@, i as int);
        assert(s@.subrange(0, i as int) =~= s@.take(i as int));
    }
    s.substring_char(0, i).to_owned()
}

/// The first word runs to the first whitespace position.
proof fn lemma_first_word_len(s: Seq<char>, i: int)
    requires
        0 <= i <= s.len(),
        forall|k: int| 0 <= k < i ==> !is_cfg_ws(s[k]),
        i < s.len() ==> is_cfg_ws(s[i]),
    ensures
        first_word_len(s) == i,
    decreases i,
{
    if i == 0 {
    } else {
        assert(!is_cfg_ws(s[0]));
        assert(forall|k: int| 0 <= k < i - 1 ==> !is_cfg_ws(#[trigger] s.skip(1)[k]));
        if i - 1 < s.skip(1).len() {
            assert(s.skip(1)[i - 1] == s[i]);
        }
        lemma_first_word_len(s.skip(1), i - 1);
    }
}

/// Reads the host records out of an SSH configuration text.
pub fn parse_config_content(content: &str) -> (r: Vec<Host>)
    ensures
        r@.len() == spec_parse_config(content@).len(),
        forall|k: int|
            0 <= k < r@.len() ==> host_view(#[trigger] r@[k]) == spec_parse_config(content@)[k],
{
    let lines = split_lines(content);
    let mut done: Vec<Host> = Vec::new();
    let mut cur_name: String = String::new();
    let mut cur_aliases: String = String::new();
    let mut cur_user: Option<String> = None;
    let mut cur_hostname: String = String::new();
    let mut cur_port: Option<String> = None;
    let mut cur_proxy: Option<String> = None;
    let mut in_block = false;
    let n = lines.len();
    let mut i: usize = 0;
    proof {
        assert(lines.deep_view().skip(0) =~= spec_lines(content@));
        assert(dones_view(&done) =~= Seq::<HostV>::empty());
    }
    while i < n
        invariant
            n == lines@.len(),
            n == lines.deep_view().len(),
            i <= n,
            hosts_from_lines(spec_lines(content@), Seq::empty(), None) == hosts_from_lines(
                lines.deep_view().skip(i as int),
                dones_view(&done),
                cur_view(
                    in_block,
                    &cur_name,
                    &cur_aliases,
                    &cur_user,
                    &cur_hostname,
                    &cur_port,
                    &cur_proxy,
                ),
            ),
        decreases n - i,
    {
        let ghost rest = lines.deep_view().skip(i as int);
        let ghost old_dones = dones_view(&done);
        let ghost old_cur = cur_view(
            in_block,
            &cur_name,
            &cur_aliases,
            &cur_user,
            &cur_hostname,
            &cur_port,
            &cur_proxy,
        );
        proof {
            reveal_strlit("Host ");
            reveal_strlit("Hostname ");
            reveal_strlit("User ");
            reveal_strlit("Port ");
            reveal_strlit("ProxyCommand ");
            assert("Host "@.len() == 5);
            assert("Hostname "@.len() == 9);
            assert("User "@.len() == 5);
            assert("Port "@.len() == 5);
            assert("ProxyCommand "@.len() == 13);
            assert(lines.deep_view()[i as int] == lines@[i as int]@);
            assert(rest[0] == lines.deep_view()[i as int]);
            assert(rest.skip(1) =~= lines.deep_view().skip(i + 1));
        }
        let t = trim_str(lines[i].as_str());
        let empty_or_comment = if t.as_str().unicode_len() == 0 {
            true
        } else {
            t.as_str().get_char(0) == '#'
        };
        if empty_or_comment {
        } else if str_starts_with(t.as_str(), "Host ") {
            let tlen = t.as_str().unicode_len();
            let patterns = trim_str(t.as_str().substring_char(5, tlen));
            proof {
                assert(t@.subrange(5, t@.len() as int) =~= t@.skip(5));
            }
            if in_block {
                let finished = finish_current(
                    &cur_name,
                    &cur_aliases,
                    &cur_user,
                    &cur_hostname,
                    &cur_port,
                    &cur_proxy,
                );
                done.push(finished);
                proof {
                    assert(dones_view(&done) =~= old_dones.push(host_view(finished)));
                }
            }
            proof {
                lemma_first_word_len_bound(patterns@);
            }
            let pats_len = patterns.as_str().unicode_len();
            let name = first_word(patterns.as_str());
            let name_len = name.as_str().unicode_len();
            proof {
                assert(name@.len() == first_word_len(patterns@));
                assert(patterns@.subrange(name@.len() as int, patterns@.len() as int)
                    =~= patterns@.skip(first_word_len(patterns@)));
            }
            let aliases = trim_str(patterns.as_str().substring_char(name_len, pats_len));
            cur_name = name;
            cur_aliases = aliases;
            cur_user = None;
            cur_hostname = String::new();
            cur_port = None;
            cur_proxy = None;
            in_block = true;
            proof {
                assert(cur_view(
                    in_block,
                    &cur_name,
                    &cur_aliases,
                    &cur_user,
                    &cur_hostname,
                    &cur_port,
                    &cur_proxy,
                ) == Some(open_block(trim_spec(trim_spec(rest[0]).skip(5)))));
            }
        } else if in_block {
            let tlen = t.as_str().unicode_len();
            if str_starts_with(t.as_str(), "Hostname ") {
                cur_hostname = trim_str(t.as_str().substring_char(9, tlen));
                proof {
                    assert(t@.subrange(9, t@.len() as int) =~= t@.skip(9));
                }
            } else if str_starts_with(t.as_str(), "User ") {
                cur_user = Some(trim_str(t.as_str().substring_char(5, tlen)));
                proof {
                    assert(t@.subrange(5, t@.len() as int) =~= t@.skip(5));
                }
            } else if str_starts_with(t.as_str(), "Port ") {
                cur_port = Some(trim_str(t.as_str().substring_char(5, tlen)));
                proof {
                    assert(t@.subrange(5, t@.len() as int) =~= t@.skip(5));
                }
            } else if str_starts_with(t.as_str(), "ProxyCommand ") {
                cur_proxy = Some(trim_str(t.as_str().substring_char(13, tlen)));
                proof {
                    assert(t@.subrange(13, t@.len() as int) =~= t@.skip(13));
                }
            }
        }
        proof {
            assert(hosts_from_lines(rest, old_dones, old_cur) == hosts_from_lines(
                rest.skip(1),
                dones_view(&done),
                cur_view(
                    in_block,
                    &cur_name,
                    &cur_aliases,
                    &cur_user,
                    &cur_hostname,
                    &cur_port,
                    &cur_proxy,
                ),
            ));
        }
        i += 1;
    }
    if in_block {
        done.push(finish_current(
            &cur_name,
            &cur_aliases,
            &cur_user,
            &cur_hostname,
            &cur_port,
            &cur_proxy,
        ));
    }
    proof {
        assert(lines.deep_view().skip(n as int) =~= Seq::<Seq<char>>::empty());
    }
    done
}

/// The images of the finished records.
pub open spec fn dones_view(done: &Vec<Host>) -> Seq<HostV> {
    Seq::new(done@.len(), |k: int| host_view(done@[k]))
}

/// The image of the block being assembled, when one is open.
pub open spec fn cur_view(
    in_block: bool,
    name: &String,
    aliases: &String,
    user: &Option<String>,
    hostname: &String,
    port: &Option<String>,
    proxy: &Option<String>,
) -> Option<BlockV> {
    if in_block {
        Some(
            BlockV {
                name: name@,
                aliases: aliases@,
                user: user.deep_view(),
                hostname: hostname@,
                port: port.deep_view(),
                proxy_command: proxy.deep_view(),
            },
        )
    } else {
        None
    }
}

/// The first word is never longer than the text.
proof fn lemma_first_word_len_bound(s: Seq<char>)
    ensures
        0 <= first_word_len(s) <= s.len(),
    decreases s.len(),
{
    if s.len() > 0 && !is_cfg_ws(s[0]) {
        lemma_first_word_len_bound(s.skip(1));
    }
}

/// Builds the finished record for the open block.
fn finish_current(
    name: &String,
    aliases: &String,
    user: &Option<String>,
    hostname: &String,
    port: &Option<String>,
    proxy: &Option<String>,
) -> (h: Host)
    ensures
        host_view(h) == finish_block(
            BlockV {
                name: name@,
                aliases: aliases@,
                user: user.deep_view(),
                hostname: hostname@,
                port: port.deep_view(),
                proxy_command: proxy.deep_view(),
            },
        ),
{
    let destination = if hostname.as_str().unicode_len() == 0 {
        name.clone()
    } else {
        hostname.clone()
    };
    let user2 = match user {
        Some(u) => Some(u.clone()),
        None => None,
    };
    let port2 = match port {
        Some(p) => Some(p.clone()),
        None => None,
    };
    let proxy2 = match proxy {
        Some(p) => Some(p.clone()),
        None => None,
    };
    Host {
        name: name.clone(),
        aliases: aliases.clone(),
        user: user2,
        destination,
        port: port2,
        proxy_command: proxy2,
    }
}

} // verus!
