//! Markup for highlighted text: escaping and emphasis of every match of a query.

use vstd::prelude::*;
use crate::text::{
    contains, fold, fold_str, fold_chars, chars_of, contains_folded, occurs_at, occurs_at_exec,
    opt_view, push_char,
};

verus! {

/// Opening tag of the emphasis put around a match in a row that is not selected,
/// and in the detail view.
pub const HIGHLIGHT_OPEN: &'static str = "<span background='#E95420' foreground='white' weight='bold'>";

/// Opening tag of the emphasis put around a match in the selected row.
pub const HIGHLIGHT_OPEN_SELECTED: &'static str = "<span background='#333' foreground='white' weight='bold'>";

/// Closing tag of an emphasis.
pub const HIGHLIGHT_CLOSE: &'static str = "</span>";

/// A control character that markup writes as a numeric character reference.
pub open spec fn is_escaped_control(c: char) -> bool {
    let n = c as u32;
    (0x1 <= n <= 0x8) || (0xb <= n <= 0xc) || (0xe <= n <= 0x1f) || (0x7f <= n <= 0x84) || (0x86
        <= n <= 0x9f)
}

/// The lowercase hexadecimal digit of `d`.
pub open spec fn hex_digit(d: u32) -> char {
    seq!['0', '1', '2', '3', '4', '5', '6', '7', '8', '9', 'a', 'b', 'c', 'd', 'e', 'f'][d as int]
}

/// The lowercase hexadecimal form of `n < 256`, without leading zeros.
pub open spec fn hex_of(n: u32) -> Seq<char> {
    if n < 16 {
        seq![hex_digit(n)]
    } else {
        seq![hex_digit(n / 16), hex_digit(n % 16)]
    }
}

/// How markup writes one character of text: the five markup-significant
/// characters as entities, control characters other than tab, newline and
/// carriage return as `&#x..;` references, any other character as itself.
pub open spec fn escape_char(c: char) -> Seq<char> {
    if c == '&' {
        seq!['&', 'a', 'm', 'p', ';']
    } else if c == '<' {
        seq!['&', 'l', 't', ';']
    } else if c == '>' {
        seq!['&', 'g', 't', ';']
    } else if c == '\'' {
        seq!['&', '#', '3', '9', ';']
    } else if c == '"' {
        seq!['&', 'q', 'u', 'o', 't', ';']
    } else if is_escaped_control(c) {
        seq!['&', '#', 'x'] + hex_of(c as u32) + seq![';']
    } else {
        seq![c]
    }
}

/// How markup writes a text: each character escaped in turn.
pub open spec fn escape(s: Seq<char>) -> Seq<char>
    decreases s.len(),
{
    if s.len() == 0 {
        Seq::empty()
    } else {
        escape(s.drop_last()) + escape_char(s.last())
    }
}

/// Escaping works piece by piece.
pub proof fn lemma_escape_concat(a: Seq<char>, b: Seq<char>)
    ensures
        escape(a + b) == escape(a) + escape(b),
    decreases b.len(),
{
    if b.len() == 0 {
        assert(a + b =~= a);
        assert(escape(b) =~= Seq::empty());
        assert(escape(a) + escape(b) =~= escape(a));
    } else {
        assert((a + b).drop_last() =~= a + b.drop_last());
        lemma_escape_concat(a, b.drop_last());
        assert(escape(a + b) =~= escape(a) + escape(b));
    }
}

/// The escaped form of one character.
proof fn lemma_escape_single(c: char)
    ensures
        escape(seq![c]) == escape_char(c),
{
    assert(seq![c].drop_last() =~= Seq::<char>::empty());
    assert(escape(Seq::<char>::empty()) =~= Seq::<char>::empty());
    assert(escape(seq![c]) =~= escape_char(c));
}

/// Markup for `t[i..]`, where `fq` is the folded query: scanning left to right,
/// each place where the folded text holds `fq` is emphasized between `open` and
/// `close` and scanning resumes after it, so matches never overlap; every other
/// character is escaped as it stands.
pub open spec fn marked_from(
    t: Seq<char>,
    fq: Seq<char>,
    i: int,
    open: Seq<char>,
    close: Seq<char>,
) -> Seq<char>
    decreases t.len() - i,
{
    if i >= t.len() || i < 0 {
        Seq::empty()
    } else if fq.len() > 0 && occurs_at(fold(t), fq, i) {
        open + escape(t.subrange(i, i + fq.len())) + close + marked_from(
            t,
            fq,
            i + fq.len(),
            open,
            close,
        )
    } else {
        escape_char(t[i]) + marked_from(t, fq, i + 1, open, close)
    }
}

/// The highlighted form of `t` for `query`: `None` when the query is empty or
/// occurs nowhere in the text up to case, which tells the caller to show the
/// plain text; the markup that emphasizes every match otherwise.
pub open spec fn highlighted(t: Seq<char>, query: Seq<char>, open: Seq<char>, close: Seq<char>) -> Option<
    Seq<char>,
> {
    if query.len() == 0 || !contains(fold(t), fold(query)) {
        None
    } else {
        Some(marked_from(t, fold(query), 0, open, close))
    }
}

/// An empty query emphasizes nothing: the caller shows the plain text.
pub proof fn lemma_empty_query_no_emphasis(t: Seq<char>, open: Seq<char>, close: Seq<char>)
    ensures
        highlighted(t, Seq::empty(), open, close) is None,
{
}

/// Appends the escaped form of `c`.
pub fn push_escaped(out: &mut String, c: char)
    ensures
        final(out)@ == old(out)@ + escape_char(c),
{
    let ghost start = out@;
    if c == '&' {
        push_char(out, '&');
        push_char(out, 'a');
        push_char(out, 'm');
        push_char(out, 'p');
        push_char(out, ';');
    } else if c == '<' {
        push_char(out, '&');
        push_char(out, 'l');
        push_char(out, 't');
        push_char(out, ';');
    } else if c == '>' {
        push_char(out, '&');
        push_char(out, 'g');
        push_char(out, 't');
        push_char(out, ';');
    } else if c == '\'' {
        push_char(out, '&');
        push_char(out, '#');
        push_char(out, '3');
        push_char(out, '9');
        push_char(out, ';');
    } else if c == '"' {
        push_char(out, '&');
        push_char(out, 'q');
        push_char(out, 'u');
        push_char(out, 'o');
        push_char(out, 't');
        push_char(out, ';');
    } else {
        let n = c as u32;
        if (0x1 <= n && n <= 0x8) || (0xb <= n && n <= 0xc) || (0xe <= n && n <= 0x1f) || (0x7f
            <= n && n <= 0x84) || (0x86 <= n && n <= 0x9f) {
            push_char(out, '&');
            push_char(out, '#');
            push_char(out, 'x');
            if n >= 16 {
                push_char(out, hex_digit_exec(n / 16));
            }
            push_char(out, hex_digit_exec(n % 16));
            push_char(out, ';');
        } else {
            push_char(out, c);
        }
    }
    assert(out@ =~= start + escape_char(c));
}

/// The lowercase hexadecimal digit of `d < 16`.
fn hex_digit_exec(d: u32) -> (r: char)
    requires
        d < 16,
    ensures
        r == hex_digit(d),
{
    let digits: [char; 16] = [
        '0', '1', '2', '3', '4', '5', '6', '7', '8', '9', 'a', 'b', 'c', 'd', 'e', 'f',
    ];
    let r = digits[d as usize];
    assert(digits@ =~= seq!['0', '1', '2', '3', '4', '5', '6', '7', '8', '9', 'a', 'b', 'c', 'd', 'e', 'f']);
    r
}

/// Appends the escaped form of `cs[from..to]`.
pub fn push_escaped_range(out: &mut String, cs: &Vec<char>, from: usize, to: usize)
    requires
        from <= to <= cs@.len(),
    ensures
        final(out)@ == old(out)@ + escape(cs@.subrange(from as int, to as int)),
{
    let ghost start = out@;
    let mut i: usize = from;
    assert(cs@.subrange(from as int, from as int) =~= Seq::<char>::empty());
    assert(start + escape(Seq::<char>::empty()) =~= start);
    while i < to
        invariant
            from <= i <= to <= cs@.len(),
            out@ == start + escape(cs@.subrange(from as int, i as int)),
        decreases to - i,
    {
        push_escaped(out, cs[i]);
        proof {
            let prev = cs@.subrange(from as int, i as int);
            assert(cs@.subrange(from as int, i + 1) =~= prev + seq![cs@[i as int]]);
            lemma_escape_concat(prev, seq![cs@[i as int]]);
            lemma_escape_single(cs@[i as int]);
        }
        i = i + 1;
    }
}

/// The escaped form of a string.
pub fn escape_text(s: &str) -> (r: String)
    ensures
        r@ == escape(s@),
{
    let cs = chars_of(s);
    let mut out = String::new();
    push_escaped_range(&mut out, &cs, 0, cs.len());
    assert(cs@.subrange(0, cs@.len() as int) =~= s@);
    out
}

/// Markup that emphasizes every match of the folded query `fq` in `t`, whose
/// folded form is `ft`. A query that occurs nowhere gives the escaped text.
pub fn mark_matches(t: &Vec<char>, ft: &Vec<char>, fq: &Vec<char>, open: &str, close: &str) -> (r:
    String)
    requires
        ft@ == fold(t@),
    ensures
        r@ == marked_from(t@, fq@, 0, open@, close@),
{
    let mut out = String::new();
    let mut i: usize = 0;
    let n = t.len();
    proof {
        crate::text::lemma_fold_index(t@);
    }
    while i < n
        invariant
            n == t@.len(),
            ft@ == fold(t@),
            ft@.len() == n,
            i <= n,
            out@ + marked_from(t@, fq@, i as int, open@, close@) == marked_from(
                t@,
                fq@,
                0,
                open@,
                close@,
            ),
        decreases n - i,
    {
        let ghost before = out@;
        if fq.len() > 0 && occurs_at_exec(ft, fq, i) {
            out.append(open);
            push_escaped_range(&mut out, t, i, i + fq.len());
            out.append(close);
            proof {
                assert(out@ + marked_from(t@, fq@, i + fq@.len(), open@, close@) =~= before
                    + marked_from(t@, fq@, i as int, open@, close@));
            }
            i = i + fq.len();
        } else {
            push_escaped(&mut out, t[i]);
            proof {
                assert(out@ + marked_from(t@, fq@, i + 1, open@, close@) =~= before + marked_from(
                    t@,
                    fq@,
                    i as int,
                    open@,
                    close@,
                ));
            }
            i = i + 1;
        }
    }
    assert(out@ + marked_from(t@, fq@, i as int, open@, close@) =~= out@);
    out
}

/// Highlights every case-insensitive match of `query` in `text`, given the
/// folded forms of both: `None` when the query is empty or occurs nowhere.
pub fn highlight_folded(t: &Vec<char>, ft: &Vec<char>, fq: &Vec<char>, open: &str, close: &str) -> (r:
    Option<String>)
    requires
        ft@ == fold(t@),
    ensures
        r is None <==> (fq@.len() == 0 || !contains(ft@, fq@)),
        r matches Some(m) ==> m@ == marked_from(t@, fq@, 0, open@, close@),
{
    if fq.len() == 0 || !contains_folded(ft, fq) {
        None
    } else {
        Some(mark_matches(t, ft, fq, open, close))
    }
}

/// Highlights every case-insensitive match of `query` in `text`, each match
/// between `open` and `close` and everything escaped.
pub fn highlight_in_text(text: &str, query: &str, open: &str, close: &str) -> (r: Option<String>)
    ensures
        opt_view(r) == highlighted(text@, query@, open@, close@),
{
    let t = chars_of(text);
    let ft = fold_chars(&t);
    let fq = fold_str(query);
    proof {
        crate::text::lemma_fold_index(query@);
    }
    highlight_folded(&t, &ft, &fq, open, close)
}

} // verus!
