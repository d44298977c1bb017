//! Lines of a text, and the abbreviation of long texts to their first lines.

use vstd::prelude::*;
use crate::text::push_char;

verus! {

/// The end of the line that starts at `i`: the position of the next newline at
/// or after `i`, or the end of the text.
pub open spec fn line_end(s: Seq<char>, i: int) -> int
    decreases s.len() - i,
{
    if i >= s.len() || i < 0 {
        s.len() as int
    } else if s[i] == '\n' {
        i
    } else {
        line_end(s, i + 1)
    }
}

/// A line without the carriage return of a `\r\n` ending.
pub open spec fn strip_cr(l: Seq<char>) -> Seq<char> {
    if l.len() > 0 && l.last() == '\r' {
        l.drop_last()
    } else {
        l
    }
}

/// The lines of `s[i..]`: split at each newline, a carriage return before the
/// newline dropped, and no empty line after a final newline.
pub open spec fn lines_from(s: Seq<char>, i: int) -> Seq<Seq<char>>
    decreases s.len() + 1 - i
    via lines_from_decreases
{
    if i >= s.len() || i < 0 {
        Seq::empty()
    } else {
        let j = line_end(s, i);
        seq![strip_cr(s.subrange(i, j))] + lines_from(s, j + 1)
    }
}

#[via_fn]
proof fn lines_from_decreases(s: Seq<char>, i: int) {
    if 0 <= i < s.len() {
        lemma_line_end_bounds(s, i);
    }
}

/// A text has no more lines than characters.
proof fn lemma_line_count(s: Seq<char>, i: int)
    requires
        0 <= i,
    ensures
        lines_from(s, i).len() <= if i <= s.len() { s.len() - i } else { 0 },
    decreases s.len() + 1 - i,
{
    if i < s.len() {
        lemma_line_end_bounds(s, i);
        lemma_line_count(s, line_end(s, i) + 1);
    }
}

/// The lines of a text.
pub open spec fn lines_of(s: Seq<char>) -> Seq<Seq<char>> {
    lines_from(s, 0)
}

/// Lines joined by newlines.
pub open spec fn join_lines(ls: Seq<Seq<char>>) -> Seq<char>
    decreases ls.len(),
{
    if ls.len() == 0 {
        Seq::empty()
    } else if ls.len() == 1 {
        ls[0]
    } else {
        join_lines(ls.drop_last()) + seq!['\n'] + ls.last()
    }
}

/// The abbreviation of a text to its first `max_lines` lines, when it has more.
pub open spec fn shortened_of(s: Seq<char>, max_lines: nat) -> Option<Seq<char>> {
    if lines_of(s).len() <= max_lines {
        None
    } else {
        Some(join_lines(lines_of(s).take(max_lines as int)))
    }
}

proof fn lemma_line_end_bounds(s: Seq<char>, i: int)
    requires
        0 <= i <= s.len(),
    ensures
        i <= line_end(s, i) <= s.len(),
        line_end(s, i) < s.len() ==> s[line_end(s, i)] == '\n',
    decreases s.len() - i,
{
    if i < s.len() && s[i] != '\n' {
        lemma_line_end_bounds(s, i + 1);
    }
}

/// The end of the line that starts at `i`, found by scanning.
fn find_line_end(cs: &Vec<char>, i: usize) -> (r: usize)
    requires
        i <= cs@.len(),
    ensures
        r == line_end(cs@, i as int),
        i <= r <= cs@.len(),
{
    let mut j: usize = i;
    while j < cs.len() && cs[j] != '\n'
        invariant
            i <= j <= cs@.len(),
            line_end(cs@, j as int) == line_end(cs@, i as int),
        decreases cs@.len() - j,
    {
        j = j + 1;
    }
    j
}

/// The line `cs[from..to]` without the carriage return of a `\r\n` ending.
fn line_chars(cs: &Vec<char>, from: usize, to: usize) -> (r: Vec<char>)
    requires
        from <= to <= cs@.len(),
    ensures
        r@ == strip_cr(cs@.subrange(from as int, to as int)),
{
    let mut end = to;
    if to > from && cs[to - 1] == '\r' {
        end = to - 1;
    }
    let mut out: Vec<char> = Vec::new();
    let mut k: usize = from;
    while k < end
        invariant
            from <= k <= end <= to <= cs@.len(),
            out@ == cs@.subrange(from as int, k as int),
        decreases end - k,
    {
        out.push(cs[k]);
        assert(cs@.subrange(from as int, k as int).push(cs@[k as int]) =~= cs@.subrange(
            from as int,
            k + 1,
        ));
        k = k + 1;
    }
    assert(strip_cr(cs@.subrange(from as int, to as int)) =~= cs@.subrange(
        from as int,
        end as int,
    ));
    out
}

/// The first `limit` lines of a text, or all of them when it has fewer.
pub fn first_lines(cs: &Vec<char>, limit: usize) -> (r: Vec<Vec<char>>)
    ensures
        r@.len() == if lines_of(cs@).len() < limit { lines_of(cs@).len() } else { limit as nat },
        forall|k: int| 0 <= k < r@.len() ==> #[trigger] r@[k]@ == lines_of(cs@)[k],
{
    let mut out: Vec<Vec<char>> = Vec::new();
    let ghost mut seen: Seq<Seq<char>> = Seq::empty();
    let mut i: usize = 0;
    while i < cs.len() && out.len() < limit
        invariant
            i <= cs@.len(),
            out@.len() == seen.len(),
            out@.len() <= limit,
            forall|k: int| 0 <= k < seen.len() ==> #[trigger] out@[k]@ == seen[k],
            lines_of(cs@) == seen + lines_from(cs@, i as int),
        decreases cs@.len() - i,
    {
        let j = find_line_end(cs, i);
        let line = line_chars(cs, i, j);
        proof {
            lemma_line_end_bounds(cs@, i as int);
            let rest = lines_from(cs@, i as int);
            assert(rest == seq![strip_cr(cs@.subrange(i as int, j as int))] + lines_from(
                cs@,
                j + 1,
            ));
            assert(seen + rest =~= seen.push(line@) + lines_from(cs@, j + 1));
            seen = seen.push(line@);
        }
        out.push(line);
        if j < cs.len() {
            i = j + 1;
        } else {
            i = j;
        }
    }
    assert(lines_from(cs@, i as int).len() == 0 ==> lines_of(cs@) =~= seen);
    out
}

/// The lines `ls[..count]` joined by newlines.
fn join_first(ls: &Vec<Vec<char>>, count: usize) -> (r: String)
    requires
        count <= ls@.len(),
    ensures
        r@ == join_lines(ls@.take(count as int).map_values(|l: Vec<char>| l@)),
{
    let mut out = String::new();
    let mut k: usize = 0;
    while k < count
        invariant
            k <= count <= ls@.len(),
            out@ == join_lines(ls@.take(k as int).map_values(|l: Vec<char>| l@)),
        decreases count - k,
    {
        let ghost before = out@;
        if k > 0 {
            push_char(&mut out, '\n');
        }
        let line = &ls[k];
        let mut m: usize = 0;
        let ghost base = out@;
        while m < line.len()
            invariant
                m <= line@.len(),
                line == ls@[k as int],
                out@ == base + line@.take(m as int),
            decreases line@.len() - m,
        {
            push_char(&mut out, line[m]);
            assert(line@.take(m as int).push(line@[m as int]) =~= line@.take(m + 1));
            m = m + 1;
        }
        proof {
            let prev = ls@.take(k as int).map_values(|l: Vec<char>| l@);
            let next = ls@.take(k + 1).map_values(|l: Vec<char>| l@);
            assert(next.drop_last() =~= prev);
            assert(line@.take(m as int) =~= line@);
            if k == 0 {
                assert(base =~= Seq::<char>::empty());
                assert(out@ =~= join_lines(next));
            } else {
                assert(out@ =~= join_lines(next));
            }
        }
        k = k + 1;
    }
    out
}

/// The abbreviation of a text to its first `max_lines` lines, joined by
/// newlines; `None` when the text has no more lines than that.
pub fn create_shorten_content(content: &str, max_lines: usize) -> (r: Option<String>)
    ensures
        crate::text::opt_view(r) == shortened_of(content@, max_lines as nat),
{
    let cs = crate::text::chars_of(content);
    let n = cs.len();
    if max_lines == usize::MAX {
        proof {
            assert(n as int == cs@.len());
            lemma_line_count(cs@, 0);
        }
        return None;
    }
    let ls = first_lines(&cs, max_lines + 1);
    if ls.len() <= max_lines {
        None
    } else {
        let joined = join_first(&ls, max_lines);
        proof {
            let all = lines_of(content@);
            assert(ls@.take(max_lines as int).map_values(|l: Vec<char>| l@) =~= all.take(
                max_lines as int,
            ));
        }
        Some(joined)
    }
}

} // verus!
