//! The terminal buffer: raw PTY bytes run through a VT100 interpreter, and a
//! bounded scrollback collects the completed lines — both the lines that
//! scrolled off the top of the live screen and the finished lines still on
//! it. The scrollback evicts oldest first and can be searched
//! case-insensitively.
//!
//! Committed lines are counted in total: rows that scrolled off (read from
//! the interpreter's own bounded history) plus the finished lines of the
//! live screen. The tally is exact until more rows scroll off than the
//! history bound keeps, and treats the rows of one wrapped line like any
//! other rows.

use crate::strutil::{spec_contains, spec_lines, split_lines, str_contains};
use vstd::prelude::*;

verus! {

#[verifier::external_type_specification]
#[verifier::external_body]
pub struct ExScreen(vt100::Screen);

/// The VT100 interpreter, held opaquely: Verus sees its state only through
/// the named quantities below.
#[verifier::external_body]
pub struct VtParser {
    inner: vt100::Parser,
}

/// What the interpreter's screen shows at the live position, as text:
/// visible rows joined by newlines (the rows of one wrapped line joined
/// without), trailing blank rows left out. A function of the parser state.
pub uninterp spec fn vt_live_text(p: VtParser) -> Seq<char>;

/// The row the cursor stands on. A function of the parser state.
pub uninterp spec fn vt_cursor_row(p: VtParser) -> u16;

/// How many rows the interpreter holds in its scrollback history: the rows
/// that scrolled off the top of the live screen, oldest dropped beyond the
/// history bound. A function of the parser state.
pub uninterp spec fn vt_scrolled_rows(p: VtParser) -> usize;

/// The view offset: 0 shows the live screen, larger values show history.
/// A function of the parser state.
pub uninterp spec fn vt_view_offset(p: VtParser) -> usize;

/// The screen's row count. A function of the parser state.
pub uninterp spec fn vt_rows(p: VtParser) -> u16;

/// The screen's column count. A function of the parser state.
pub uninterp spec fn vt_cols(p: VtParser) -> u16;

/// The live screen text after processing `data` from state `p`. vt100's
/// interpretation is deterministic, so the outcome is a function of the
/// interpreter state and the bytes alone.
pub uninterp spec fn vt_after_live_text(p: VtParser, data: Seq<u8>) -> Seq<char>;

/// The cursor row after processing `data` from state `p`.
pub uninterp spec fn vt_after_cursor_row(p: VtParser, data: Seq<u8>) -> u16;

/// The scrolled-row count after processing `data` from state `p`.
pub uninterp spec fn vt_after_scrolled_rows(p: VtParser, data: Seq<u8>) -> usize;

/// Relies on vt100's `Parser::new`: a fresh interpreter of the given size
/// keeping up to `history` scrolled-off rows, with an empty screen, viewed
/// at the live position. vt100's wrapping and scrolling arithmetic needs at
/// least two rows and two columns once arbitrary bytes flow.
#[verifier::external_body]
fn vt_new(rows: u16, cols: u16, history: usize) -> (p: VtParser)
    requires
        rows >= 2,
        cols >= 2,
    ensures
        vt_live_text(p).len() == 0,
        vt_cursor_row(p) == 0,
        vt_scrolled_rows(p) == 0,
        vt_view_offset(p) == 0,
        vt_rows(p) == rows,
        vt_cols(p) == cols,
{
    VtParser { inner: vt100::Parser::new(rows, cols, history) }
}

/// Relies on vt100's `Parser::process`: feeds bytes through the interpreter,
/// leaving the screen text, cursor and scrolled-row count that interpreting
/// `data` from the old state yields; malformed escape sequences are ignored
/// rather than reported. The screen size is never changed by processing, and
/// a view parked at the live position stays there.
#[verifier::external_body]
fn vt_process(p: &mut VtParser, data: &[u8])
    ensures
        vt_live_text(*final(p)) == vt_after_live_text(*old(p), data@),
        vt_cursor_row(*final(p)) == vt_after_cursor_row(*old(p), data@),
        vt_scrolled_rows(*final(p)) == vt_after_scrolled_rows(*old(p), data@),
        vt_rows(*final(p)) == vt_rows(*old(p)),
        vt_cols(*final(p)) == vt_cols(*old(p)),
        vt_view_offset(*old(p)) == 0 ==> vt_view_offset(*final(p)) == 0,
{
    p.inner.process(data);
}

/// Relies on vt100's `Screen::contents`: the text the screen shows, read at
/// the live position.
#[verifier::external_body]
fn vt_contents_string(p: &VtParser) -> (r: String)
    requires
        vt_view_offset(*p) == 0,
    ensures
        r@ == vt_live_text(*p),
{
    p.inner.screen().contents()
}

/// Relies on vt100's `Screen::cursor_position`: the row the cursor is on,
/// independent of the view offset.
#[verifier::external_body]
fn vt_cursor_row_now(p: &VtParser) -> (r: u16)
    ensures
        r == vt_cursor_row(*p),
{
    p.inner.screen().cursor_position().0
}

/// Relies on vt100's `Screen::set_scrollback`: moves the view offset,
/// clamped to the rows the history actually holds; the screen contents,
/// cursor and history itself are untouched.
#[verifier::external_body]
fn vt_set_view(p: &mut VtParser, offset: usize)
    ensures
        vt_view_offset(*final(p)) == (if offset <= vt_scrolled_rows(*old(p)) {
            offset
        } else {
            vt_scrolled_rows(*old(p))
        }),
        vt_scrolled_rows(*final(p)) == vt_scrolled_rows(*old(p)),
        vt_live_text(*final(p)) == vt_live_text(*old(p)),
        vt_cursor_row(*final(p)) == vt_cursor_row(*old(p)),
        vt_rows(*final(p)) == vt_rows(*old(p)),
        vt_cols(*final(p)) == vt_cols(*old(p)),
{
    p.inner.screen_mut().set_scrollback(offset);
}

/// Relies on vt100's `Screen::scrollback`: the current view offset.
#[verifier::external_body]
fn vt_view_position(p: &VtParser) -> (r: usize)
    ensures
        r == vt_view_offset(*p),
{
    p.inner.screen().scrollback()
}

/// Relies on vt100's `Screen::set_size`: reflows the live screen to the new
/// dimensions; the scrolled-off history and the view offset are untouched.
/// vt100's wrapping and scrolling arithmetic needs at least two rows and two
/// columns once arbitrary bytes flow.
#[verifier::external_body]
fn vt_set_size(p: &mut VtParser, rows: u16, cols: u16)
    requires
        rows >= 2,
        cols >= 2,
    ensures
        vt_rows(*final(p)) == rows,
        vt_cols(*final(p)) == cols,
        vt_scrolled_rows(*final(p)) == vt_scrolled_rows(*old(p)),
        vt_view_offset(*final(p)) == vt_view_offset(*old(p)),
{
    p.inner.screen_mut().set_size(rows, cols);
}

/// What lowercasing a text yields. Relies on str's `to_lowercase`, which
/// computes it from the characters alone.
pub uninterp spec fn lower_of(s: Seq<char>) -> Seq<char>;

/// Relies on str's `to_lowercase`: the Unicode-lowercased text.
#[verifier::external_body]
fn to_lowercase_string(s: &str) -> (r: String)
    ensures
        r@ == lower_of(s@),
        s@.len() == 0 ==> r@.len() == 0,
{
    s.to_lowercase()
}

/// A scrollback line matches a query when the lowercased query occurs in the
/// lowercased line.
pub open spec fn line_matches(line: Seq<char>, query: Seq<char>) -> bool {
    spec_contains(lower_of(line), lower_of(query))
}

/// `results` lists, in increasing order, exactly the scrollback positions
/// below `upto` whose line matches `query`, each paired with its line.
pub open spec fn search_results_ok(
    scrollback: Seq<Seq<char>>,
    query: Seq<char>,
    results: Seq<(usize, Seq<char>)>,
    upto: int,
) -> bool {
    &&& upto <= scrollback.len()
    &&& forall|j: int|
        0 <= j < results.len() ==> (#[trigger] results[j]).0 < upto && results[j].1 == scrollback[
            results[j].0 as int
        ] && line_matches(scrollback[results[j].0 as int], query)
    &&& forall|j1: int, j2: int| 0 <= j1 < j2 < results.len() ==> results[j1].0 < results[j2].0
    &&& forall|k: int|
        0 <= k < upto && line_matches(scrollback[k], query) ==> exists|j: int|
            0 <= j < results.len() && (#[trigger] results[j]).0 == k
}

/// The last `n` elements of `s` (all of it when it is no longer than `n`).
pub open spec fn take_last(s: Seq<Seq<char>>, n: int) -> Seq<Seq<char>> {
    if s.len() <= n {
        s
    } else {
        s.skip(s.len() - n)
    }
}

/// How one `process_data` call advances the committed tally, given the
/// scrolled-row count `s_now`, the cursor row and the live lines after the
/// call: rows newly scrolled off shift the already-committed screen
/// positions up, and every finished line at or past the shifted position is
/// newly committed. The committed position never moves backwards, so a
/// line is appended at most once.
pub open spec fn commit_step(
    seen: int,
    committed_visible: int,
    s_now: int,
    cursor: int,
    lines: Seq<Seq<char>>,
) -> (int, int, Seq<Seq<char>>) {
    let delta = if s_now > seen {
        s_now - seen
    } else {
        0
    };
    let base0 = if committed_visible > delta {
        committed_visible - delta
    } else {
        0
    };
    let v = if cursor < lines.len() {
        cursor
    } else {
        lines.len() as int
    };
    let base = if base0 > v {
        v
    } else {
        base0
    };
    let seen2 = if s_now > seen {
        s_now
    } else {
        seen
    };
    let cv2 = if base0 > v {
        base0
    } else {
        v
    };
    (seen2, cv2, lines.subrange(base, v))
}

/// How one `process_data` call transforms the whole buffer: the interpreter
/// observables become what interpreting `data` from the old state yields
/// (size unchanged, view at the live position), and the tally and scrollback
/// advance by [`commit_step`] over those observables.
pub open spec fn buffer_stepped(pre: TerminalBuffer, post: TerminalBuffer, data: Seq<u8>) -> bool {
    let (seen2, cv2, appended) = commit_step(
        pre.seen_scrolled_view(),
        pre.committed_visible_view(),
        vt_after_scrolled_rows(pre.parser_view(), data) as int,
        vt_after_cursor_row(pre.parser_view(), data) as int,
        spec_lines(vt_after_live_text(pre.parser_view(), data)),
    );
    &&& post.max_lines_view() == pre.max_lines_view()
    &&& post.has_new_output_view()
    &&& vt_live_text(post.parser_view()) == vt_after_live_text(pre.parser_view(), data)
    &&& vt_cursor_row(post.parser_view()) == vt_after_cursor_row(pre.parser_view(), data)
    &&& vt_scrolled_rows(post.parser_view()) == vt_after_scrolled_rows(pre.parser_view(), data)
    &&& vt_rows(post.parser_view()) == vt_rows(pre.parser_view())
    &&& vt_cols(post.parser_view()) == vt_cols(pre.parser_view())
    &&& vt_view_offset(post.parser_view()) == 0
    &&& post.seen_scrolled_view() == seen2
    &&& post.committed_visible_view() == cv2
    &&& post.scrollback_lines() == take_last(
        pre.scrollback_lines() + appended,
        pre.max_lines_view(),
    )
    &&& post.scrollback_lines().len() <= post.max_lines_view()
}

/// The buffer after a sequence of `process_data` calls, one per chunk, in
/// order: the chain of single steps.
pub open spec fn buffer_stepped_all(
    pre: TerminalBuffer,
    post: TerminalBuffer,
    chunks: Seq<Seq<u8>>,
) -> bool
    decreases chunks.len(),
{
    if chunks.len() == 0 {
        post == pre
    } else {
        exists|mid: TerminalBuffer|
            #[trigger] buffer_stepped(pre, mid, chunks[0]) && buffer_stepped_all(
                mid,
                post,
                chunks.skip(1),
            )
    }
}

/// A chain of steps grows at its end: a chain to `mid` followed by one step
/// to `post` is a chain over the chunks with that step's data appended.
pub proof fn lemma_buffer_stepped_all_snoc(
    pre: TerminalBuffer,
    mid: TerminalBuffer,
    post: TerminalBuffer,
    chunks: Seq<Seq<u8>>,
    data: Seq<u8>,
)
    requires
        buffer_stepped_all(pre, mid, chunks),
        buffer_stepped(mid, post, data),
    ensures
        buffer_stepped_all(pre, post, chunks.push(data)),
    decreases chunks.len(),
{
    if chunks.len() == 0 {
        assert(mid == pre);
        assert(chunks.push(data)[0] == data);
        assert(chunks.push(data).skip(1) =~= Seq::<Seq<u8>>::empty());
        assert(buffer_stepped(pre, post, chunks.push(data)[0]));
        assert(buffer_stepped_all(post, post, chunks.push(data).skip(1)));
    } else {
        let mid0 = choose|m: TerminalBuffer|
            #[trigger] buffer_stepped(pre, m, chunks[0]) && buffer_stepped_all(
                m,
                mid,
                chunks.skip(1),
            );
        lemma_buffer_stepped_all_snoc(mid0, mid, post, chunks.skip(1), data);
        assert(chunks.push(data)[0] == chunks[0]);
        assert(chunks.push(data).skip(1) =~= chunks.skip(1).push(data));
        assert(buffer_stepped(pre, mid0, chunks.push(data)[0]));
    }
}

/// Manages one terminal: a VT100 interpreter for the live screen and a
/// bounded scrollback of completed lines.
pub struct TerminalBuffer {
    parser: VtParser,
    scrollback: Vec<String>,
    seen_scrolled: usize,
    committed_visible: usize,
    max_lines: usize,
    has_new_output: bool,
}

impl TerminalBuffer {
    /// The interpreter state.
    pub closed spec fn parser_view(self) -> VtParser {
        self.parser
    }

    /// The committed scrollback lines, oldest first.
    pub closed spec fn scrollback_lines(self) -> Seq<Seq<char>> {
        self.scrollback.deep_view()
    }

    /// The highest scrolled-row count observed so far.
    pub closed spec fn seen_scrolled_view(self) -> int {
        self.seen_scrolled as int
    }

    /// How many leading lines of the live screen are already committed.
    pub closed spec fn committed_visible_view(self) -> int {
        self.committed_visible as int
    }

    /// The scrollback bound.
    pub closed spec fn max_lines_view(self) -> int {
        self.max_lines as int
    }

    /// Whether output arrived since the buffer was last viewed.
    pub closed spec fn has_new_output_view(self) -> bool {
        self.has_new_output
    }

    /// The scrollback never exceeds its bound, and the interpreter is viewed
    /// at the live position.
    pub open spec fn wf(self) -> bool {
        &&& self.scrollback_lines().len() <= self.max_lines_view()
        &&& vt_view_offset(self.parser_view()) == 0
    }

    /// Creates a terminal buffer with the default 80x24 screen and room for
    /// `max_lines` scrollback lines; the interpreter keeps the same number
    /// of scrolled-off rows as its history.
    pub fn new(max_lines: usize) -> (t: Self)
        ensures
            t.wf(),
            t.scrollback_lines() == Seq::<Seq<char>>::empty(),
            t.max_lines_view() == max_lines as int,
            t.seen_scrolled_view() == 0,
            t.committed_visible_view() == 0,
            !t.has_new_output_view(),
            vt_rows(t.parser_view()) == 24,
            vt_cols(t.parser_view()) == 80,
    {
        let t = TerminalBuffer {
            parser: vt_new(24, 80, max_lines),
            scrollback: Vec::new(),
            seen_scrolled: 0,
            committed_visible: 0,
            max_lines,
            has_new_output: false,
        };
        proof {
            assert(t.scrollback_lines() =~= Seq::<Seq<char>>::empty());
        }
        t
    }

    /// Feeds raw PTY output through the interpreter, raises the new-output
    /// flag, and commits every newly completed line — counted across
    /// scrolling by [`commit_step`] — to the scrollback, evicting the
    /// oldest lines beyond the bound.
    pub fn process_data(&mut self, data: &[u8])
        requires
            old(self).wf(),
        ensures
            final(self).wf(),
            buffer_stepped(*old(self), *final(self), data@),
    {
        vt_process(&mut self.parser, data);
        self.has_new_output = true;
        // read the scrolled-row count: park the view at the top of the
        // history, read the clamped position, return to the live view
        vt_set_view(&mut self.parser, usize::MAX);
        let scrolled = vt_view_position(&self.parser);
        vt_set_view(&mut self.parser, 0);
        let ghost p1 = self.parser;
        let contents = vt_contents_string(&self.parser);
        let lines = split_lines(contents.as_str());
        let cursor = vt_cursor_row_now(&self.parser);
        let v = if (cursor as usize) < lines.len() {
            cursor as usize
        } else {
            lines.len()
        };
        let delta = if scrolled > self.seen_scrolled {
            scrolled - self.seen_scrolled
        } else {
            0
        };
        if scrolled > self.seen_scrolled {
            self.seen_scrolled = scrolled;
        }
        let base0 = if self.committed_visible > delta {
            self.committed_visible - delta
        } else {
            0
        };
        let base = if base0 > v {
            v
        } else {
            base0
        };
        let ghost sb0 = self.scrollback.deep_view();
        let mut i = base;
        proof {
            assert(self.scrollback.deep_view() =~= take_last(
                sb0 + lines.deep_view().subrange(base as int, base as int),
                self.max_lines as int,
            ));
        }
        while i < v
            invariant
                v <= lines.deep_view().len(),
                0 <= base <= i <= v,
                self.max_lines == old(self).max_lines,
                self.has_new_output,
                self.parser == p1,
                self.seen_scrolled as int == (if vt_scrolled_rows(p1) as int > old(
                    self,
                ).seen_scrolled_view() {
                    vt_scrolled_rows(p1) as int
                } else {
                    old(self).seen_scrolled_view()
                }),
                self.committed_visible == old(self).committed_visible,
                self.scrollback.deep_view() =~= take_last(
                    sb0 + lines.deep_view().subrange(base as int, i as int),
                    self.max_lines as int,
                ),
                self.scrollback.deep_view().len() <= self.max_lines,
            decreases v - i,
        {
            let ghost cur = sb0 + lines.deep_view().subrange(base as int, i as int);
            self.scrollback.push(lines[i].clone());
            proof {
                assert(self.scrollback.deep_view() =~= take_last(
                    cur,
                    self.max_lines as int,
                ).push(lines.deep_view()[i as int]));
            }
            if self.scrollback.len() > self.max_lines {
                self.scrollback.remove(0);
                proof {
                    assert(self.scrollback.deep_view() =~= take_last(
                        cur,
                        self.max_lines as int,
                    ).push(lines.deep_view()[i as int]).skip(1));
                }
            }
            proof {
                assert(lines.deep_view().subrange(base as int, i + 1) =~= lines.deep_view()
                    .subrange(base as int, i as int).push(lines.deep_view()[i as int]));
                assert(cur.push(lines.deep_view()[i as int]) =~= sb0 + lines.deep_view().subrange(
                    base as int,
                    i + 1,
                ));
                lemma_take_last_snoc(cur, lines.deep_view()[i as int], self.max_lines as int);
                assert(self.scrollback.deep_view() =~= take_last(
                    sb0 + lines.deep_view().subrange(base as int, i + 1),
                    self.max_lines as int,
                ));
            }
            i += 1;
        }
        self.committed_visible = if base0 > v {
            base0
        } else {
            v
        };
    }

    /// Reflows the live screen to the new dimensions (at least two rows and
    /// two columns each; smaller asks are raised to that floor, which the
    /// interpreter needs to wrap and scroll arbitrary output). Committed
    /// scrollback lines are untouched.
    pub fn resize(&mut self, cols: u16, rows: u16)
        ensures
            vt_rows(final(self).parser_view()) == (if rows < 2 {
                2u16
            } else {
                rows
            }),
            vt_cols(final(self).parser_view()) == (if cols < 2 {
                2u16
            } else {
                cols
            }),
            final(self).scrollback_lines() == old(self).scrollback_lines(),
            final(self).max_lines_view() == old(self).max_lines_view(),
            final(self).seen_scrolled_view() == old(self).seen_scrolled_view(),
            final(self).committed_visible_view() == old(self).committed_visible_view(),
            final(self).has_new_output_view() == old(self).has_new_output_view(),
            old(self).wf() ==> final(self).wf(),
    {
        let rows1 = if rows < 2 {
            2
        } else {
            rows
        };
        let cols1 = if cols < 2 {
            2
        } else {
            cols
        };
        vt_set_size(&mut self.parser, rows1, cols1);
    }

    /// The current visible screen, for rendering.
    /// Relies on vt100's `Parser::screen`.
    #[verifier::external_body]
    pub fn get_screen(&self) -> &vt100::Screen {
        self.parser.inner.screen()
    }

    /// The committed scrollback lines, oldest first.
    pub fn get_scrollback(&self) -> (r: &Vec<String>)
        ensures
            r.deep_view() == self.scrollback_lines(),
    {
        &self.scrollback
    }

    /// Whether output arrived since the buffer was last viewed.
    pub fn has_new_output(&self) -> (r: bool)
        ensures
            r == self.has_new_output_view(),
    {
        self.has_new_output
    }

    /// Clears the new-output flag; called when the tab comes to the
    /// foreground.
    pub fn mark_viewed(&mut self)
        ensures
            !final(self).has_new_output_view(),
            final(self).scrollback_lines() == old(self).scrollback_lines(),
            final(self).max_lines_view() == old(self).max_lines_view(),
            final(self).seen_scrolled_view() == old(self).seen_scrolled_view(),
            final(self).committed_visible_view() == old(self).committed_visible_view(),
            final(self).parser_view() == old(self).parser_view(),
    {
        self.has_new_output = false;
    }

    /// Case-insensitive substring search over the scrollback: every matching
    /// line, oldest first, paired with its position.
    pub fn search(&self, query: &str) -> (r: Vec<(usize, String)>)
        ensures
            search_results_ok(
                self.scrollback_lines(),
                query@,
                r.deep_view(),
                self.scrollback_lines().len() as int,
            ),
    {
        let lowered_query = to_lowercase_string(query);
        let mut results: Vec<(usize, String)> = Vec::new();
        let n = self.scrollback.len();
        let mut i: usize = 0;
        while i < n
            invariant
                n == self.scrollback.deep_view().len(),
                i <= n,
                lowered_query@ == lower_of(query@),
                search_results_ok(
                    self.scrollback.deep_view(),
                    query@,
                    results.deep_view(),
                    i as int,
                ),
            decreases n - i,
        {
            proof {
                assert(self.scrollback.deep_view()[i as int] == self.scrollback@[i as int]@);
            }
            let lowered_line = to_lowercase_string(self.scrollback[i].as_str());
            if str_contains(lowered_line.as_str(), lowered_query.as_str()) {
                let ghost old_r = results.deep_view();
                results.push((i, self.scrollback[i].clone()));
                proof {
                    let sb = self.scrollback.deep_view();
                    let rs = results.deep_view();
                    assert(rs.len() == old_r.len() + 1);
                    assert(rs[old_r.len() as int] == (i, sb[i as int]));
                    assert(forall|j: int| 0 <= j < old_r.len() ==> rs[j] == old_r[j]);
                    assert(line_matches(sb[i as int], query@));
                    assert forall|j: int| 0 <= j < rs.len() implies ((#[trigger] rs[j]).0 < i + 1
                        && rs[j].1 == sb[rs[j].0 as int] && line_matches(
                        sb[rs[j].0 as int],
                        query@,
                    )) by {
                        if j < old_r.len() {
                            assert(rs[j] == old_r[j]);
                            assert((#[trigger] old_r[j]).0 < i && old_r[j].1 == sb[
                                old_r[j].0 as int
                            ] && line_matches(sb[old_r[j].0 as int], query@));
                        }
                    }
                    assert forall|j1: int, j2: int| 0 <= j1 < j2 < rs.len() implies rs[j1].0
                        < rs[j2].0 by {
                        assert((#[trigger] old_r[j1]).0 < i);
                        if j2 < old_r.len() {
                            assert(old_r[j1].0 < (#[trigger] old_r[j2]).0);
                        }
                    }
                    assert forall|k: int|
                        0 <= k < i + 1 && line_matches(sb[k], query@) implies exists|j: int|
                        0 <= j < rs.len() && (#[trigger] rs[j]).0 == k by {
                        if k == i {
                            assert(rs[old_r.len() as int].0 == k);
                        } else {
                            let j0 = choose|j: int|
                                0 <= j < old_r.len() && (#[trigger] old_r[j]).0 == k;
                            assert(rs[j0].0 == k);
                        }
                    }
                    assert(search_results_ok(sb, query@, rs, i + 1));
                }
            } else {
                proof {
                    assert(search_results_ok(
                        self.scrollback.deep_view(),
                        query@,
                        results.deep_view(),
                        i + 1,
                    ));
                }
            }
            i += 1;
        }
        results
    }
}

/// Appending one element to a bounded window: the window of the grown
/// sequence is the grown window, trimmed at the front when it overflows.
proof fn lemma_take_last_snoc(s: Seq<Seq<char>>, x: Seq<char>, n: int)
    requires
        0 <= n,
    ensures
        take_last(s, n).push(x).len() <= n ==> take_last(s.push(x), n) =~= take_last(s, n).push(x),
        take_last(s, n).push(x).len() > n ==> take_last(s.push(x), n) =~= take_last(s, n).push(
            x,
        ).skip(1),
{
}

} // verus!
