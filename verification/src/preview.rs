//! The preview engine: tells text from binary by the leading bytes,
//! splits text into lines, and serves a scrollable window of them.

use vstd::prelude::*;
use crate::text::{bytes_to_display, display_chars};

verus! {

/// How many leading bytes the text test examines.
pub const TEXT_PROBE_LEN: usize = 512;

/// The text-or-binary test: no null byte among the first bytes
/// (up to `TEXT_PROBE_LEN` of them).
pub open spec fn spec_is_text(content: Seq<u8>) -> bool {
    forall|i: int| 0 <= i < content.len() && i < TEXT_PROBE_LEN ==> content[i] != 0
}

pub fn is_text_file(content: &Vec<u8>) -> (r: bool)
    ensures
        r == spec_is_text(content@),
{
    let probe = if content.len() < TEXT_PROBE_LEN {
        content.len()
    } else {
        TEXT_PROBE_LEN
    };
    let mut i: usize = 0;
    while i < probe
        invariant
            i <= probe,
            probe == if content@.len() < TEXT_PROBE_LEN {
                content@.len()
            } else {
                TEXT_PROBE_LEN as nat
            },
            forall|k: int| 0 <= k < i ==> content@[k] != 0,
        decreases probe - i,
    {
        if content[i] == 0 {
            return false;
        }
        i += 1;
    }
    true
}

/// The position of the first line feed, or the length if there is none.
pub open spec fn find_nl(s: Seq<u8>) -> int
    decreases s.len(),
{
    if s.len() == 0 {
        0
    } else if s[0] == 10 {
        0
    } else {
        1 + find_nl(s.skip(1))
    }
}

pub proof fn lemma_find_nl(s: Seq<u8>)
    ensures
        0 <= find_nl(s) <= s.len(),
        find_nl(s) < s.len() ==> s[find_nl(s)] == 10,
        forall|i: int| 0 <= i < find_nl(s) ==> s[i] != 10,
    decreases s.len(),
{
    if s.len() == 0 {
    } else if s[0] == 10 {
    } else {
        lemma_find_nl(s.skip(1));
        assert forall|i: int| 0 <= i < find_nl(s) implies s[i] != 10 by {
            if i > 0 {
                assert(s.skip(1)[i - 1] != 10);
            }
        }
    }
}

/// A line with a trailing carriage return removed.
pub open spec fn strip_cr(line: Seq<u8>) -> Seq<u8> {
    if line.len() > 0 && line.last() == 13 {
        line.drop_last()
    } else {
        line
    }
}

/// The lines of a text, split at line feeds, each without a trailing
/// carriage return; a final line feed ends the last line rather than
/// opening an empty one.
pub open spec fn spec_lines(s: Seq<u8>) -> Seq<Seq<u8>>
    decreases s.len(),
    via spec_lines_decreases
{
    if s.len() == 0 {
        Seq::empty()
    } else {
        let k = find_nl(s);
        if k == s.len() {
            seq![strip_cr(s)]
        } else {
            seq![strip_cr(s.take(k))] + spec_lines(s.skip(k + 1))
        }
    }
}

#[via_fn]
proof fn spec_lines_decreases(s: Seq<u8>) {
    lemma_find_nl(s);
}

/// Lines put back together with single line feeds, none at the end.
pub open spec fn spec_join_lines(lines: Seq<Seq<u8>>) -> Seq<u8>
    decreases lines.len(),
{
    if lines.len() == 0 {
        Seq::empty()
    } else if lines.len() == 1 {
        lines[0]
    } else {
        lines[0] + seq![10u8] + spec_join_lines(lines.skip(1))
    }
}

pub proof fn lemma_join_push(lines: Seq<Seq<u8>>, x: Seq<u8>)
    ensures
        lines.len() == 0 ==> spec_join_lines(lines.push(x)) == x,
        lines.len() > 0 ==> spec_join_lines(lines.push(x)) == spec_join_lines(lines) + seq![10u8]
            + x,
    decreases lines.len(),
{
    let p = lines.push(x);
    if lines.len() == 0 {
        assert(p.len() == 1);
        assert(p[0] == x);
    } else {
        lemma_join_push(lines.skip(1), x);
        assert(p.skip(1) =~= lines.skip(1).push(x));
        assert(p[0] == lines[0]);
        if lines.len() == 1 {
            assert(spec_join_lines(p) == p[0] + seq![10u8] + spec_join_lines(p.skip(1)));
            assert(lines.skip(1).len() == 0);
        } else {
            assert(spec_join_lines(p) == p[0] + seq![10u8] + spec_join_lines(p.skip(1)));
            assert(spec_join_lines(lines) == lines[0] + seq![10u8] + spec_join_lines(
                lines.skip(1),
            ));
            assert(lines[0] + seq![10u8] + (spec_join_lines(lines.skip(1)) + seq![10u8] + x) =~= (
            lines[0] + seq![10u8] + spec_join_lines(lines.skip(1))) + seq![10u8] + x);
        }
    }
}

/// The farthest a preview of this text can be scrolled down.
pub open spec fn spec_max_scroll(content: Seq<u8>, max_lines: nat) -> nat {
    if !spec_is_text(content) {
        0
    } else if spec_lines(content).len() > max_lines {
        (spec_lines(content).len() - max_lines) as nat
    } else {
        0
    }
}

/// The window of lines a text preview shows: the scroll position clamped
/// so that the window never runs past the end, then at most `max_lines`
/// lines from there.
pub open spec fn spec_window(content: Seq<u8>, scroll: nat, max_lines: nat) -> Seq<Seq<u8>> {
    let lines = spec_lines(content);
    let limit = if lines.len() > max_lines {
        (lines.len() - max_lines) as nat
    } else {
        0
    };
    let start = if scroll < limit {
        scroll as int
    } else {
        limit as int
    };
    let cnt = if max_lines < lines.len() - start {
        max_lines as int
    } else {
        lines.len() - start
    };
    lines.subrange(start, start + cnt)
}

/// Splits a text into its lines.
fn split_lines(content: &Vec<u8>) -> (r: Vec<Vec<u8>>)
    ensures
        r.deep_view() == spec_lines(content@),
{
    let mut r: Vec<Vec<u8>> = Vec::new();
    let n = content.len();
    proof {
        assert(content@.skip(0) =~= content@);
    }
    let mut p: usize = 0;
    while p < n
        invariant
            p <= n,
            n == content@.len(),
            spec_lines(content@) =~~= r.deep_view() + spec_lines(content@.skip(p as int)),
        decreases n - p,
    {
        let ghost rest = content@.skip(p as int);
        // find the next line feed
        let mut k: usize = p;
        while k < n && content[k] != 10
            invariant
                p <= k <= n,
                n == content@.len(),
                forall|i: int| p <= i < k ==> content@[i] != 10,
            decreases n - k,
        {
            k += 1;
        }
        proof {
            lemma_find_nl(rest);
            assert(find_nl(rest) == k - p) by {
                let f = find_nl(rest);
                if f < k - p {
                    assert(rest[f] == 10);
                    assert(content@[p + f] == 10);
                } else if f > k - p {
                    assert(k < n);
                    assert(rest[k - p] == 10);
                }
            }
        }
        // the line itself, without a trailing carriage return
        let mut line: Vec<u8> = Vec::new();
        let mut end = k;
        if k > p && content[k - 1] == 13 {
            end = k - 1;
        }
        let mut i: usize = p;
        while i < end
            invariant
                p <= i <= end <= n,
                n == content@.len(),
                line@ =~= content@.subrange(p as int, i as int),
            decreases end - i,
        {
            line.push(content[i]);
            proof {
                assert(line@ =~= content@.subrange(p as int, i + 1));
            }
            i += 1;
        }
        proof {
            let rawline = if k == n {
                rest
            } else {
                rest.take(k - p)
            };
            assert(rest.take(k - p) =~= content@.subrange(p as int, k as int));
            if k == n {
                assert(rest =~= content@.subrange(p as int, k as int));
            }
            assert(line@ =~= strip_cr(rawline)) by {
                if k > p && content@[k - 1] == 13 {
                    assert(rawline.len() > 0 && rawline.last() == 13);
                    assert(strip_cr(rawline) =~= content@.subrange(p as int, k - 1));
                } else {
                    assert(strip_cr(rawline) == rawline);
                    assert(rawline =~= content@.subrange(p as int, k as int));
                }
            }
        }
        let ghost rv0 = r.deep_view();
        r.push(line);
        proof {
            assert(r.deep_view() =~~= rv0.push(line@));
            if k == n {
                assert(spec_lines(rest) =~= seq![strip_cr(rest)]);
                assert(content@.skip(n as int) =~= Seq::<u8>::empty());
                assert(r.deep_view() + spec_lines(content@.skip(n as int)) =~~= rv0 + spec_lines(
                    rest,
                ));
            } else {
                assert(rest.skip(k - p + 1) =~= content@.skip(k + 1));
                assert(spec_lines(rest) =~= seq![strip_cr(rest.take(k - p))] + spec_lines(
                    content@.skip(k + 1),
                ));
                assert(rv0 + spec_lines(rest) =~~= r.deep_view() + spec_lines(content@.skip(k + 1)));
            }
            assert(spec_lines(content@) =~~= r.deep_view() + spec_lines(
                content@.skip(if k == n {
                    n as int
                } else {
                    k + 1
                }),
            ));
        }
        p = if k == n {
            n
        } else {
            k + 1
        };
    }
    proof {
        assert(spec_lines(content@.skip(n as int)) =~= Seq::<Seq<u8>>::empty());
        assert(r.deep_view() =~~= spec_lines(content@));
    }
    r
}

/// Joins lines `[start, end)` with line feeds.
fn join_lines(lines: &Vec<Vec<u8>>, start: usize, end: usize) -> (r: Vec<u8>)
    requires
        start <= end <= lines.deep_view().len(),
    ensures
        r@ == spec_join_lines(lines.deep_view().subrange(start as int, end as int)),
{
    let mut r: Vec<u8> = Vec::new();
    let mut i = start;
    while i < end
        invariant
            start <= i <= end <= lines.deep_view().len(),
            lines.deep_view().len() == lines@.len(),
            r@ =~= spec_join_lines(lines.deep_view().subrange(start as int, i as int)),
        decreases end - i,
    {
        let ghost sofar = lines.deep_view().subrange(start as int, i as int);
        let ghost rv0 = r@;
        if i > start {
            r.push(10);
        }
        let line = &lines[i];
        let mut j: usize = 0;
        while j < line.len()
            invariant
                j <= line@.len(),
                r@ =~= (if i > start {
                    rv0.push(10u8)
                } else {
                    rv0
                }) + line@.take(j as int),
            decreases line@.len() - j,
        {
            r.push(line[j]);
            proof {
                assert(r@ =~= (if i > start {
                    rv0.push(10u8)
                } else {
                    rv0
                }) + line@.take(j + 1));
            }
            j += 1;
        }
        proof {
            lemma_join_push(sofar, lines.deep_view()[i as int]);
            assert(lines.deep_view().subrange(start as int, i + 1) =~= sofar.push(
                lines.deep_view()[i as int],
            ));
            assert(lines.deep_view()[i as int] =~= line@);
            assert(line@.take(line@.len() as int) =~= line@);
            if i > start {
                assert(rv0.push(10u8) + line@ =~= rv0 + seq![10u8] + line@);
            } else {
                assert(sofar.len() == 0);
                assert(rv0 + line@ =~= line@);
            }
            assert(r@ =~= spec_join_lines(lines.deep_view().subrange(start as int, i + 1)));
        }
        i += 1;
    }
    r
}

/// The preview of a file's bytes: for text, the window of lines at the
/// clamped scroll position joined with line feeds and rendered as
/// characters, together with the farthest scroll position; for binary, a
/// fixed message and no scrolling at all.
pub fn get_file_preview(content: &Vec<u8>, scroll_position: usize, max_lines: usize) -> (r: (
    String,
    usize,
))
    ensures
        spec_is_text(content@) ==> r.0@ == display_chars(
            spec_join_lines(spec_window(content@, scroll_position as nat, max_lines as nat)),
        ),
        !spec_is_text(content@) ==> r.0@ == "Can't preview file"@,
        r.1 == spec_max_scroll(content@, max_lines as nat),
{
    if !is_text_file(content) {
        return (String::from_str("Can't preview file"), 0);
    }
    let lines = split_lines(content);
    let total = lines.len();
    let limit = if total > max_lines {
        total - max_lines
    } else {
        0
    };
    let start = if scroll_position < limit {
        scroll_position
    } else {
        limit
    };
    let cnt = if max_lines < total - start {
        max_lines
    } else {
        total - start
    };
    let windowed = join_lines(&lines, start, start + cnt);
    proof {
        assert(lines.deep_view().subrange(start as int, start as int + cnt as int) =~~= spec_window(
            content@,
            scroll_position as nat,
            max_lines as nat,
        ));
    }
    (bytes_to_display(&windowed), limit)
}

/// A preview never scrolls past its text: with no more lines than the
/// window holds, the farthest scroll position is zero and every line is
/// shown whatever scroll position is asked for; and a null byte among
/// the leading bytes makes the preview the fixed message, whatever the
/// length of the file.
pub proof fn lemma_preview_bounds(content: Seq<u8>, scroll: nat, max_lines: nat)
    ensures
        spec_is_text(content) && spec_lines(content).len() <= max_lines ==> spec_max_scroll(
            content,
            max_lines,
        ) == 0 && spec_window(content, scroll, max_lines) == spec_lines(content),
        spec_is_text(content) ==> spec_max_scroll(content, max_lines) + max_lines >= spec_lines(
            content,
        ).len(),
{
    if spec_is_text(content) && spec_lines(content).len() <= max_lines {
        assert(spec_window(content, scroll, max_lines) =~= spec_lines(content));
    }
}

} // verus!
