//! Column sizing for the host table: the width of each column is the widest
//! cell it has to show, measured in terminal cells, plus one cell of padding.

use crate::host::Host;
use vstd::prelude::*;

verus! {

/// One cell of padding between columns.
pub const COLUMN_PADDING: usize = 1;

/// What a text occupies in terminal cells. Relies on unicode-width's
/// `UnicodeWidthStr::width`, which computes it from the characters alone.
pub uninterp spec fn display_width_of(s: Seq<char>) -> nat;

/// Relies on unicode-width's `UnicodeWidthStr::width`: the number of
/// terminal cells the text occupies.
#[verifier::external_body]
fn display_width(s: &str) -> (r: usize)
    ensures
        r as nat == display_width_of(s@),
{
    unicode_width::UnicodeWidthStr::width(s)
}

/// The texts the table shows for one host, column by column: name, aliases,
/// user, destination, port, and optionally the proxy command; unset options
/// show as empty.
pub open spec fn host_cell(h: Host, column: int) -> Seq<char> {
    if column == 0 {
        h.name@
    } else if column == 1 {
        h.aliases@
    } else if column == 2 {
        match h.user {
            Some(u) => u@,
            None => Seq::empty(),
        }
    } else if column == 3 {
        h.destination@
    } else if column == 4 {
        match h.port {
            Some(p) => p@,
            None => Seq::empty(),
        }
    } else {
        match h.proxy_command {
            Some(p) => p@,
            None => Seq::empty(),
        }
    }
}

/// The widest cell of `column` over the first `upto` hosts.
pub open spec fn column_max_width(hosts: Seq<Host>, column: int, upto: int) -> nat
    decreases upto,
{
    if upto <= 0 {
        0
    } else {
        let prev = column_max_width(hosts, column, upto - 1);
        let w = display_width_of(host_cell(hosts[upto - 1], column));
        if w > prev {
            w
        } else {
            prev
        }
    }
}

fn cell_width(h: &Host, column: usize) -> (r: usize)
    requires
        column <= 5,
    ensures
        r as nat == display_width_of(host_cell(*h, column as int)),
{
    proof {
        reveal_strlit("");
        assert(""@ =~= Seq::<char>::empty());
    }
    match column {
        0 => display_width(h.name.as_str()),
        1 => display_width(h.aliases.as_str()),
        2 => match &h.user {
            Some(u) => display_width(u.as_str()),
            None => display_width(""),
        },
        3 => display_width(h.destination.as_str()),
        4 => match &h.port {
            Some(p) => display_width(p.as_str()),
            None => display_width(""),
        },
        _ => match &h.proxy_command {
            Some(p) => display_width(p.as_str()),
            None => display_width(""),
        },
    }
}

fn max_cell_width(hosts: &Vec<Host>, column: usize) -> (r: usize)
    requires
        column <= 5,
    ensures
        r as nat == column_max_width(hosts@, column as int, hosts@.len() as int),
{
    let n = hosts.len();
    let mut best: usize = 0;
    let mut i: usize = 0;
    while i < n
        invariant
            n == hosts@.len(),
            i <= n,
            column <= 5,
            best as nat == column_max_width(hosts@, column as int, i as int),
        decreases n - i,
    {
        let w = cell_width(&hosts[i], column);
        if w > best {
            best = w;
        }
        i += 1;
    }
    best
}

/// The width of each table column: the widest cell it shows plus one cell of
/// padding, saturated at the type's bound; the proxy-command column is only
/// present when asked for.
pub fn host_column_widths(hosts: &Vec<Host>, show_proxy_command: bool) -> (r: Vec<usize>)
    ensures
        r@.len() == (if show_proxy_command {
            6int
        } else {
            5int
        }),
        forall|c: int|
            0 <= c < r@.len() ==> (#[trigger] r@[c]) as nat == (if column_max_width(
                hosts@,
                c,
                hosts@.len() as int,
            ) + (COLUMN_PADDING as nat) <= usize::MAX as nat {
                column_max_width(hosts@, c, hosts@.len() as int) + (COLUMN_PADDING as nat)
            } else {
                usize::MAX as nat
            }),
{
    let columns: usize = if show_proxy_command {
        6
    } else {
        5
    };
    let mut r: Vec<usize> = Vec::new();
    let mut c: usize = 0;
    while c < columns
        invariant
            columns <= 6,
            c <= columns,
            r@.len() == c,
            forall|k: int|
                0 <= k < c ==> (#[trigger] r@[k]) as nat == (if column_max_width(
                    hosts@,
                    k,
                    hosts@.len() as int,
                ) + (COLUMN_PADDING as nat) <= usize::MAX as nat {
                    column_max_width(hosts@, k, hosts@.len() as int) + (COLUMN_PADDING as nat)
                } else {
                    usize::MAX as nat
                }),
        decreases columns - c,
    {
        let w = max_cell_width(hosts, c);
        let padded = if w <= usize::MAX - COLUMN_PADDING {
            w + COLUMN_PADDING
        } else {
            usize::MAX
        };
        r.push(padded);
        c += 1;
    }
    r
}

} // verus!
