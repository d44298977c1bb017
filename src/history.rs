//! Reading the backend's clipboard history: records, classification of each
//! preview, and the commands that talk to the backend.

use vstd::prelude::*;
use crate::text::{chars_of, fold, fold_chars, is_prefix, is_prefix_exec, string_of, starts_with};

verus! {

/// The marker that starts the preview of an image.
pub const IMAGE_MARKER: &'static str = " [Image,";

/// The marker that starts the preview of copied files.
pub const FILES_MARKER: &'static str = " [Files] ";

/// The parts of `s[i..]` between separators `sep`, empty parts included.
pub open spec fn split_from(s: Seq<char>, sep: char, i: int) -> Seq<Seq<char>>
    decreases s.len() + 1 - i
    via split_from_decreases
{
    if i > s.len() || i < 0 {
        Seq::empty()
    } else {
        let j = next_sep(s, sep, i);
        seq![s.subrange(i, j)] + split_from(s, sep, j + 1)
    }
}

/// The position of the next `sep` at or after `i`, or the end of the text.
pub open spec fn next_sep(s: Seq<char>, sep: char, i: int) -> int
    decreases s.len() - i,
{
    if i >= s.len() || i < 0 {
        s.len() as int
    } else if s[i] == sep {
        i
    } else {
        next_sep(s, sep, i + 1)
    }
}

proof fn lemma_next_sep_bounds(s: Seq<char>, sep: char, i: int)
    requires
        0 <= i <= s.len(),
    ensures
        i <= next_sep(s, sep, i) <= s.len(),
        next_sep(s, sep, i) < s.len() ==> s[next_sep(s, sep, i)] == sep,
        forall|k: int| i <= k < next_sep(s, sep, i) ==> s[k] != sep,
    decreases s.len() - i,
{
    if i < s.len() && s[i] != sep {
        lemma_next_sep_bounds(s, sep, i + 1);
    }
}

#[via_fn]
proof fn split_from_decreases(s: Seq<char>, sep: char, i: int) {
    if 0 <= i <= s.len() {
        lemma_next_sep_bounds(s, sep, i);
    }
}

/// The parts of `s` between separators `sep`.
pub open spec fn split_on(s: Seq<char>, sep: char) -> Seq<Seq<char>> {
    split_from(s, sep, 0)
}

/// Splits `cs` at every `sep`.
pub fn split_chars(cs: &Vec<char>, sep: char) -> (r: Vec<Vec<char>>)
    ensures
        r@.len() == split_on(cs@, sep).len(),
        forall|k: int| 0 <= k < r@.len() ==> #[trigger] r@[k]@ == split_on(cs@, sep)[k],
{
    let mut out: Vec<Vec<char>> = Vec::new();
    let ghost mut seen: Seq<Seq<char>> = Seq::empty();
    let mut i: usize = 0;
    loop
        invariant
            i <= cs@.len(),
            out@.len() == seen.len(),
            forall|k: int| 0 <= k < seen.len() ==> #[trigger] out@[k]@ == seen[k],
            split_on(cs@, sep) == seen + split_from(cs@, sep, i as int),
        decreases cs@.len() - i,
    {
        let mut j: usize = i;
        while j < cs.len() && cs[j] != sep
            invariant
                i <= j <= cs@.len(),
                next_sep(cs@, sep, j as int) == next_sep(cs@, sep, i as int),
            decreases cs@.len() - j,
        {
            j = j + 1;
        }
        let mut part: Vec<char> = Vec::new();
        let mut k: usize = i;
        while k < j
            invariant
                i <= k <= j <= cs@.len(),
                part@ == cs@.subrange(i as int, k as int),
            decreases j - k,
        {
            part.push(cs[k]);
            assert(cs@.subrange(i as int, k as int).push(cs@[k as int]) =~= cs@.subrange(
                i as int,
                k + 1,
            ));
            k = k + 1;
        }
        proof {
            lemma_next_sep_bounds(cs@, sep, i as int);
            assert(seen + split_from(cs@, sep, i as int) =~= seen.push(part@) + split_from(
                cs@,
                sep,
                j + 1,
            ));
            seen = seen.push(part@);
        }
        out.push(part);
        if j == cs.len() {
            assert(split_from(cs@, sep, j + 1) =~= Seq::<Seq<char>>::empty());
            assert(split_on(cs@, sep) =~= seen);
            return out;
        }
        i = j + 1;
    }
}

/// The last name among path segments that are neither empty nor `.`.
pub open spec fn last_name(segs: Seq<Seq<char>>) -> Option<Seq<char>>
    decreases segs.len(),
{
    if segs.len() == 0 {
        None
    } else if segs.last().len() == 0 || segs.last() == seq!['.'] {
        last_name(segs.drop_last())
    } else {
        Some(segs.last())
    }
}

/// The final component of a `/`-separated path, when it names a file: empty
/// and `.` components are passed over, and `..` names none.
pub open spec fn file_name(path: Seq<char>) -> Option<Seq<char>> {
    match last_name(split_on(path, '/')) {
        Some(n) => if n == seq!['.', '.'] {
            None
        } else {
            Some(n)
        },
        None => None,
    }
}

/// The position of the last `.` in `s[..i]`, if any.
pub open spec fn last_dot_before(s: Seq<char>, i: int) -> Option<int>
    decreases i,
{
    if i <= 0 || i > s.len() {
        None
    } else if s[i - 1] == '.' {
        Some(i - 1)
    } else {
        last_dot_before(s, i - 1)
    }
}

/// The extension of a path: what follows the last `.` of its file name, when
/// that `.` is not the name's first character.
pub open spec fn file_extension(path: Seq<char>) -> Option<Seq<char>> {
    match file_name(path) {
        Some(n) => match last_dot_before(n, n.len() as int) {
            Some(k) => if k > 0 {
                Some(n.subrange(k + 1, n.len() as int))
            } else {
                None
            },
            None => None,
        },
        None => None,
    }
}

/// The name found by `last_name`, by scanning the segments from the end.
fn find_last_name(segs: &Vec<Vec<char>>) -> (r: Option<usize>)
    ensures
        match r {
            Some(k) => k < segs@.len() && last_name(segs@.map_values(|v: Vec<char>| v@)) == Some(
                segs@[k as int]@,
            ),
            None => last_name(segs@.map_values(|v: Vec<char>| v@)) is None,
        },
{
    let ghost all = segs@.map_values(|v: Vec<char>| v@);
    let mut n: usize = segs.len();
    assert(all.take(n as int) =~= all);
    while n > 0
        invariant
            n <= segs@.len(),
            all == segs@.map_values(|v: Vec<char>| v@),
            last_name(all) == last_name(all.take(n as int)),
        decreases n,
    {
        let seg = &segs[n - 1];
        assert(all.take(n as int).last() == seg@);
        if seg.len() == 0 || (seg.len() == 1 && seg[0] == '.') {
            assert(all.take(n as int).drop_last() =~= all.take(n - 1));
            if seg.len() == 1 {
                assert(seg@ =~= seq!['.']);
            }
            n = n - 1;
        } else {
            assert(seg@ != seq!['.']) by {
                if seg@.len() == 1 {
                    assert(seg@[0] != '.');
                }
            }
            return Some(n - 1);
        }
    }
    assert(all.take(0) =~= Seq::<Seq<char>>::empty());
    None
}

/// The extension of a path (see `file_extension`).
pub fn path_extension(path: &Vec<char>) -> (r: Option<Vec<char>>)
    ensures
        match r {
            Some(e) => file_extension(path@) == Some(e@),
            None => file_extension(path@) is None,
        },
{
    let segs = split_chars(path, '/');
    proof {
        assert(segs@.map_values(|v: Vec<char>| v@) =~= split_on(path@, '/'));
    }
    let found = find_last_name(&segs);
    let k = match found {
        Some(k) => k,
        None => return None,
    };
    let name = &segs[k];
    if name.len() == 2 && name[0] == '.' && name[1] == '.' {
        assert(name@ =~= seq!['.', '.']);
        return None;
    }
    assert(name@ != seq!['.', '.']) by {
        if name@.len() == 2 {
            assert(name@[0] != '.' || name@[1] != '.');
        }
    }
    let mut i: usize = name.len();
    while i > 0 && name[i - 1] != '.'
        invariant
            i <= name@.len(),
            last_dot_before(name@, name@.len() as int) == last_dot_before(name@, i as int),
        decreases i,
    {
        i = i - 1;
    }
    if i <= 1 {
        return None;
    }
    let ext = string_chars(name, i, name.len());
    Some(ext)
}

/// The characters `cs[from..to]`.
fn string_chars(cs: &Vec<char>, from: usize, to: usize) -> (r: Vec<char>)
    requires
        from <= to <= cs@.len(),
    ensures
        r@ == cs@.subrange(from as int, to as int),
{
    let mut out: Vec<char> = Vec::new();
    let mut k: usize = from;
    while k < to
        invariant
            from <= k <= to <= cs@.len(),
            out@ == cs@.subrange(from as int, k as int),
        decreases to - k,
    {
        out.push(cs[k]);
        assert(cs@.subrange(from as int, k as int).push(cs@[k as int]) =~= cs@.subrange(
            from as int,
            k + 1,
        ));
        k = k + 1;
    }
    out
}

/// A whitespace character: one with Unicode's White_Space property.
pub open spec fn is_whitespace(c: char) -> bool {
    let n = c as u32;
    (0x9 <= n <= 0xd) || n == 0x20 || n == 0x85 || n == 0xa0 || n == 0x1680 || (0x2000 <= n
        <= 0x200a) || n == 0x2028 || n == 0x2029 || n == 0x202f || n == 0x205f || n == 0x3000
}

/// `s` without its leading whitespace.
pub open spec fn trim_start(s: Seq<char>) -> Seq<char>
    decreases s.len(),
{
    if s.len() > 0 && is_whitespace(s[0]) {
        trim_start(s.drop_first())
    } else {
        s
    }
}

/// `s` without its trailing whitespace.
pub open spec fn trim_end(s: Seq<char>) -> Seq<char>
    decreases s.len(),
{
    if s.len() > 0 && is_whitespace(s.last()) {
        trim_end(s.drop_last())
    } else {
        s
    }
}

/// `s` without leading and trailing whitespace.
pub open spec fn trim(s: Seq<char>) -> Seq<char> {
    trim_end(trim_start(s))
}

/// `s` without every copy of `p` that starts it, one after the other.
pub open spec fn strip_repeated(s: Seq<char>, p: Seq<char>) -> Seq<char>
    decreases s.len(),
{
    if p.len() > 0 && is_prefix(p, s) {
        strip_repeated(s.subrange(p.len() as int, s.len() as int), p)
    } else {
        s
    }
}

/// The extensions of image formats, in lowercase.
pub open spec fn image_extensions() -> Seq<Seq<char>> {
    seq![
        seq!['p', 'n', 'g'],
        seq!['j', 'p', 'g'],
        seq!['j', 'p', 'e', 'g'],
        seq!['g', 'i', 'f'],
        seq!['b', 'm', 'p'],
        seq!['t', 'i', 'f', 'f'],
        seq!['w', 'e', 'b', 'p'],
    ]
}

/// An extension that names an image format, in any case.
pub open spec fn is_image_extension(e: Seq<char>) -> bool {
    image_extensions().contains(fold(e))
}

/// The path that a files preview names.
pub open spec fn files_preview_path(content: Seq<char>) -> Seq<char> {
    trim(strip_repeated(content, FILES_MARKER@))
}

/// A preview shows an image: it carries the image marker, or it names files and
/// the path it names has an image extension.
pub open spec fn is_image_preview(content: Seq<char>) -> bool {
    ||| is_prefix(IMAGE_MARKER@, content)
    ||| is_prefix(FILES_MARKER@, content) && match file_extension(files_preview_path(content)) {
        Some(e) => is_image_extension(e),
        None => false,
    }
}

/// Whether `e` names an image format.
fn image_extension_exec(e: &Vec<char>) -> (r: bool)
    ensures
        r == is_image_extension(e@),
{
    let f = fold_chars(e);
    let words: Vec<Vec<char>> = vec![
        vec!['p', 'n', 'g'],
        vec!['j', 'p', 'g'],
        vec!['j', 'p', 'e', 'g'],
        vec!['g', 'i', 'f'],
        vec!['b', 'm', 'p'],
        vec!['t', 'i', 'f', 'f'],
        vec!['w', 'e', 'b', 'p'],
    ];
    let ghost known = image_extensions();
    assert(words@.map_values(|w: Vec<char>| w@) =~= known);
    let mut k: usize = 0;
    while k < words.len()
        invariant
            f@ == fold(e@),
            k <= words@.len(),
            words@.map_values(|w: Vec<char>| w@) == known,
            known == image_extensions(),
            forall|j: int| 0 <= j < k ==> known[j] != f@,
        decreases words@.len() - k,
    {
        assert(known[k as int] == words@[k as int]@);
        if words[k].len() == f.len() && is_prefix_exec(&words[k], &f) {
            assert(f@.subrange(0, f@.len() as int) =~= f@);
            return true;
        }
        proof {
            if known[k as int] == f@ {
                assert(f@.subrange(0, f@.len() as int) =~= f@);
            }
        }
        k = k + 1;
    }
    false
}

/// `cs[from..]` without its leading whitespace: the position where it starts.
fn skip_whitespace(cs: &Vec<char>, from: usize) -> (r: usize)
    requires
        from <= cs@.len(),
    ensures
        from <= r <= cs@.len(),
        trim_start(cs@.subrange(from as int, cs@.len() as int)) == cs@.subrange(
            r as int,
            cs@.len() as int,
        ),
{
    let mut i: usize = from;
    while i < cs.len() && is_whitespace_exec(cs[i])
        invariant
            from <= i <= cs@.len(),
            trim_start(cs@.subrange(from as int, cs@.len() as int)) == trim_start(
                cs@.subrange(i as int, cs@.len() as int),
            ),
        decreases cs@.len() - i,
    {
        assert(cs@.subrange(i as int, cs@.len() as int).drop_first() =~= cs@.subrange(
            i + 1,
            cs@.len() as int,
        ));
        i = i + 1;
    }
    i
}

/// Whether `c` is whitespace.
fn is_whitespace_exec(c: char) -> (r: bool)
    ensures
        r == is_whitespace(c),
{
    let n = c as u32;
    (0x9 <= n && n <= 0xd) || n == 0x20 || n == 0x85 || n == 0xa0 || n == 0x1680 || (0x2000 <= n
        && n <= 0x200a) || n == 0x2028 || n == 0x2029 || n == 0x202f || n == 0x205f || n == 0x3000
}

/// The path that a files preview names, computed.
fn files_path_exec(cs: &Vec<char>) -> (r: Vec<char>)
    ensures
        r@ == files_preview_path(cs@),
{
    let marker = chars_of(FILES_MARKER);
    let mut start: usize = 0;
    assert(cs@.subrange(0, cs@.len() as int) =~= cs@);
    while start <= cs.len() && marker.len() > 0 && marker.len() <= cs.len() - start
        && prefix_at(cs, &marker, start)
        invariant
            start <= cs@.len(),
            marker@ == FILES_MARKER@,
            strip_repeated(cs@, FILES_MARKER@) == strip_repeated(
                cs@.subrange(start as int, cs@.len() as int),
                FILES_MARKER@,
            ),
        decreases cs@.len() - start,
    {
        proof {
            let rest = cs@.subrange(start as int, cs@.len() as int);
            assert(rest.subrange(marker@.len() as int, rest.len() as int) =~= cs@.subrange(
                start + marker@.len(),
                cs@.len() as int,
            ));
        }
        start = start + marker.len();
    }
    proof {
        let rest = cs@.subrange(start as int, cs@.len() as int);
        assert(!(marker@.len() > 0 && is_prefix(marker@, rest)) ==> strip_repeated(rest, FILES_MARKER@) == rest);
    }
    let a = skip_whitespace(cs, start);
    let mut b: usize = cs.len();
    while b > a && is_whitespace_exec(cs[b - 1])
        invariant
            a <= b <= cs@.len(),
            trim(cs@.subrange(start as int, cs@.len() as int)) == trim_end(
                cs@.subrange(a as int, b as int),
            ),
        decreases b - a,
    {
        assert(cs@.subrange(a as int, b as int).drop_last() =~= cs@.subrange(a as int, b - 1));
        b = b - 1;
    }
    string_chars(cs, a, b)
}

/// Whether `p` stands in `cs` at `start`, as a prefix of `cs[start..]`.
fn prefix_at(cs: &Vec<char>, p: &Vec<char>, start: usize) -> (r: bool)
    requires
        start <= cs@.len(),
    ensures
        r == is_prefix(p@, cs@.subrange(start as int, cs@.len() as int)),
{
    let r = crate::text::occurs_at_exec(cs, p, start);
    assert(r == is_prefix(p@, cs@.subrange(start as int, cs@.len() as int))) by {
        let rest = cs@.subrange(start as int, cs@.len() as int);
        if p@.len() <= rest.len() {
            assert(rest.subrange(0, p@.len() as int) =~= cs@.subrange(
                start as int,
                start + p@.len(),
            ));
        }
    }
    r
}

/// Whether a preview shows an image: it carries the image marker, or it names
/// files and the path has an image extension.
pub fn is_image(content: &str) -> (r: bool)
    ensures
        r == is_image_preview(content@),
{
    if starts_with(content, IMAGE_MARKER) {
        return true;
    }
    if !starts_with(content, FILES_MARKER) {
        return false;
    }
    let cs = chars_of(content);
    let path = files_path_exec(&cs);
    match path_extension(&path) {
        Some(e) => image_extension_exec(&e),
        None => false,
    }
}

/// One record of the clipboard history: the entry's identifier and the
/// backend's preview of its content.
pub struct HistoryItem {
    pub uuid: String,
    pub content: String,
}

/// A record split at its first `:` into identifier and preview; `None` for a
/// record without one.
pub open spec fn parsed_line(line: Seq<char>) -> Option<(Seq<char>, Seq<char>)> {
    let c = next_sep(line, ':', 0);
    if c < line.len() {
        Some((line.subrange(0, c), line.subrange(c + 1, line.len() as int)))
    } else {
        None
    }
}

/// Splits a record at its first `:` into identifier and preview.
pub fn parse_clipboard_line(line: &str) -> (r: Option<(String, String)>)
    ensures
        match r {
            Some((uuid, content)) => parsed_line(line@) == Some((uuid@, content@)),
            None => parsed_line(line@) is None,
        },
{
    let cs = chars_of(line);
    let mut c: usize = 0;
    while c < cs.len() && cs[c] != ':'
        invariant
            c <= cs@.len(),
            next_sep(cs@, ':', c as int) == next_sep(cs@, ':', 0),
        decreases cs@.len() - c,
    {
        c = c + 1;
    }
    if c == cs.len() {
        return None;
    }
    let uuid = string_of(&cs, 0, c);
    let content = string_of(&cs, c + 1, cs.len());
    Some((uuid, content))
}

/// The non-empty records among `segs`.
pub open spec fn nonempty_records(segs: Seq<Seq<char>>) -> Seq<Seq<char>>
    decreases segs.len(),
{
    if segs.len() == 0 {
        Seq::empty()
    } else if segs.last().len() == 0 {
        nonempty_records(segs.drop_last())
    } else {
        nonempty_records(segs.drop_last()).push(segs.last())
    }
}

/// The records among `rs` that parse, parsed.
pub open spec fn parsed_records(rs: Seq<Seq<char>>) -> Seq<(Seq<char>, Seq<char>)>
    decreases rs.len(),
{
    if rs.len() == 0 {
        Seq::empty()
    } else {
        match parsed_line(rs.last()) {
            Some(p) => parsed_records(rs.drop_last()).push(p),
            None => parsed_records(rs.drop_last()),
        }
    }
}

/// The items of a history listing whose records are separated by NUL: the
/// first `limit` non-empty records, of which those that have a `:` become
/// items, in order.
pub open spec fn history_items(history: Seq<char>, limit: nat) -> Seq<(Seq<char>, Seq<char>)> {
    let rs = nonempty_records(split_on(history, '\0'));
    parsed_records(if rs.len() <= limit { rs } else { rs.take(limit as int) })
}

proof fn lemma_nonempty_records_prefix(segs: Seq<Seq<char>>, i: int, j: int)
    requires
        0 <= i <= j <= segs.len(),
    ensures
        nonempty_records(segs.take(i)).len() <= nonempty_records(segs.take(j)).len(),
        nonempty_records(segs.take(j)).take(nonempty_records(segs.take(i)).len() as int)
            == nonempty_records(segs.take(i)),
    decreases j - i,
{
    if i < j {
        lemma_nonempty_records_prefix(segs, i, j - 1);
        assert(segs.take(j).drop_last() =~= segs.take(j - 1));
        let a = nonempty_records(segs.take(i));
        let b = nonempty_records(segs.take(j - 1));
        if segs.take(j).last().len() != 0 {
            assert(b.push(segs.take(j).last()).take(a.len() as int) =~= b.take(a.len() as int));
        }
    } else {
        assert(nonempty_records(segs.take(j)).take(nonempty_records(segs.take(i)).len() as int)
            =~= nonempty_records(segs.take(i)));
    }
}

/// The items of a history listing: its NUL-separated records, the first
/// `limit` non-empty ones, split into identifier and preview; records without a
/// `:` are left out.
pub fn parse_history(history: &str, limit: usize) -> (r: Vec<HistoryItem>)
    ensures
        r@.len() == history_items(history@, limit as nat).len(),
        forall|k: int|
            0 <= k < r@.len() ==> (#[trigger] r@[k]).uuid@ == history_items(history@, limit as nat)[k].0
                && r@[k].content@ == history_items(history@, limit as nat)[k].1,
{
    let cs = chars_of(history);
    let segs = split_chars(&cs, '\0');
    let ghost all = segs@.map_values(|v: Vec<char>| v@);
    proof {
        assert(all =~= split_on(history@, '\0'));
    }
    let mut out: Vec<HistoryItem> = Vec::new();
    let mut taken: usize = 0;
    let mut i: usize = 0;
    while i < segs.len() && taken < limit
        invariant
            i <= segs@.len(),
            all == segs@.map_values(|v: Vec<char>| v@),
            taken <= limit,
            taken == nonempty_records(all.take(i as int)).len(),
            out@.len() == parsed_records(nonempty_records(all.take(i as int))).len(),
            forall|k: int|
                0 <= k < out@.len() ==> (#[trigger] out@[k]).uuid@ == parsed_records(
                    nonempty_records(all.take(i as int)),
                )[k].0 && out@[k].content@ == parsed_records(
                    nonempty_records(all.take(i as int)),
                )[k].1,
        decreases segs@.len() - i,
    {
        let seg = &segs[i];
        proof {
            assert(all.take(i + 1).drop_last() =~= all.take(i as int));
            assert(all.take(i + 1).last() == seg@);
        }
        if seg.len() > 0 {
            let line = string_of(seg, 0, seg.len());
            assert(seg@.subrange(0, seg@.len() as int) =~= seg@);
            taken = taken + 1;
            let ghost prev = nonempty_records(all.take(i as int));
            match parse_clipboard_line(line.as_str()) {
                Some((uuid, content)) => {
                    out.push(HistoryItem { uuid, content });
                    assert(prev.push(seg@).drop_last() =~= prev);
                },
                None => {
                    assert(prev.push(seg@).drop_last() =~= prev);
                },
            }
        }
        i = i + 1;
    }
    proof {
        let rs = nonempty_records(all);
        assert(all.take(segs@.len() as int) =~= all);
        lemma_nonempty_records_prefix(all, i as int, segs@.len() as int);
        let chosen = if rs.len() <= limit { rs } else { rs.take(limit as int) };
        let got = nonempty_records(all.take(i as int));
        if i < segs@.len() {
            assert(taken == limit);
            assert(rs.take(limit as int) == got);
            if rs.len() <= limit {
                assert(rs.take(limit as int) =~= rs);
            }
        } else {
            assert(all.take(i as int) =~= all);
        }
        assert(chosen == got);
    }
    out
}

/// What a history record becomes.
#[derive(PartialEq, Eq, Structural, Clone, Copy, Debug)]
pub enum EntryKind {
    /// Nothing: the preview is empty.
    Skip,
    /// Text, taken from the preview itself.
    Text,
    /// An image, whose path the backend gives on request.
    Image,
    /// Copied files, whose path the backend gives on request.
    File,
}

/// The kind of entry that a preview stands for.
pub open spec fn kind_of(content: Seq<char>) -> EntryKind {
    if content.len() == 0 {
        EntryKind::Skip
    } else if is_image_preview(content) {
        EntryKind::Image
    } else if is_prefix(FILES_MARKER@, content) {
        EntryKind::File
    } else {
        EntryKind::Text
    }
}

/// Classifies a preview: empty ones are skipped; those with the image marker,
/// or naming files with an image extension, are images; others naming files
/// are files; the rest is text.
pub fn classify_content(content: &str) -> (r: EntryKind)
    ensures
        r == kind_of(content@),
{
    if content.is_empty() {
        return EntryKind::Skip;
    }
    if is_image(content) {
        EntryKind::Image
    } else if starts_with(content, FILES_MARKER) {
        EntryKind::File
    } else {
        EntryKind::Text
    }
}

/// A list of strings made from literals.
fn strings(parts: &[&str]) -> (r: Vec<String>)
    ensures
        r@.len() == parts@.len(),
        forall|k: int| 0 <= k < r@.len() ==> #[trigger] r@[k]@ == parts@[k]@,
{
    let mut out: Vec<String> = Vec::new();
    let mut k: usize = 0;
    while k < parts.len()
        invariant
            k <= parts@.len(),
            out@.len() == k,
            forall|j: int| 0 <= j < k ==> #[trigger] out@[j]@ == parts@[j]@,
        decreases parts@.len() - k,
    {
        out.push(String::from_str(parts[k]));
        k = k + 1;
    }
    out
}

/// The backend arguments that list the whole history, records separated by NUL.
pub fn history_command() -> (r: Vec<String>)
    ensures
        r@.len() == 2,
        r@[0]@ == "history"@,
        r@[1]@ == "--zero"@,
{
    strings(&["history", "--zero"])
}

/// The backend arguments that fetch the stored value of entry `uuid`: the file
/// path, for images and files.
pub fn get_entry_path(uuid: &str) -> (r: Vec<String>)
    ensures
        r@.len() == 3,
        r@[0]@ == "--raw"@,
        r@[1]@ == "get"@,
        r@[2]@ == uuid@,
{
    strings(&["--raw", "get", uuid])
}

/// The backend arguments that make entry `uuid` the clipboard's content.
pub fn select_command(uuid: &str) -> (r: Vec<String>)
    ensures
        r@.len() == 2,
        r@[0]@ == "select"@,
        r@[1]@ == uuid@,
{
    strings(&["select", uuid])
}

/// The backend arguments that add the text given on standard input.
pub fn add_command() -> (r: Vec<String>)
    ensures
        r@.len() == 1,
        r@[0]@ == "add"@,
{
    strings(&["add"])
}

} // verus!
