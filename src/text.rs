//! Character sequences: collecting, building, case folding and substring search.

use vstd::prelude::*;

verus! {

/// What `char::to_lowercase` yields for a character.
pub uninterp spec fn lower_char_of(c: char) -> Seq<char>;

/// Relies on `char::to_lowercase`: the lowercase mapping of one character,
/// which its documentation describes as one or more characters.
#[verifier::external_body]
fn lowercase_char(c: char) -> (r: String)
    ensures
        r@ == lower_char_of(c),
        r@.len() >= 1,
{
    c.to_lowercase().to_string()
}

/// Relies on `String::push`: appends one character.
#[verifier::external_body]
pub(crate) fn push_char(s: &mut String, c: char)
    ensures
        final(s)@ == old(s)@.push(c),
{
    s.push(c)
}

/// The folded form of a character: its lowercase mapping when that mapping is a
/// single character, the character itself otherwise.
pub open spec fn fold_char(c: char) -> char {
    if lower_char_of(c).len() == 1 {
        lower_char_of(c)[0]
    } else {
        c
    }
}

/// The folded form of a sequence, character by character. Two texts are equal
/// up to case when their folded forms are equal.
pub open spec fn fold(s: Seq<char>) -> Seq<char> {
    s.map_values(|c: char| fold_char(c))
}

/// `q` stands in `t` at position `i`.
pub open spec fn occurs_at(t: Seq<char>, q: Seq<char>, i: int) -> bool {
    &&& 0 <= i
    &&& i + q.len() <= t.len()
    &&& t.subrange(i, i + q.len()) == q
}

/// `q` is a contiguous part of `t`.
pub open spec fn contains(t: Seq<char>, q: Seq<char>) -> bool {
    exists|i: int| occurs_at(t, q, i)
}

/// `q` is a contiguous part of `t` once both are folded: the case-insensitive test.
pub open spec fn contains_ignoring_case(t: Seq<char>, q: Seq<char>) -> bool {
    contains(fold(t), fold(q))
}

/// The characters of an optional string.
pub open spec fn opt_view(o: Option<String>) -> Option<Seq<char>> {
    match o {
        Some(s) => Some(s@),
        None => None,
    }
}

/// `p` is a prefix of `s`.
pub open spec fn is_prefix(p: Seq<char>, s: Seq<char>) -> bool {
    p.len() <= s.len() && s.subrange(0, p.len() as int) == p
}

/// Folding keeps the length and works position by position.
pub proof fn lemma_fold_index(s: Seq<char>)
    ensures
        fold(s).len() == s.len(),
        forall|i: int| 0 <= i < s.len() ==> #[trigger] fold(s)[i] == fold_char(s[i]),
{
}

/// Folding commutes with taking a part.
pub proof fn lemma_fold_subrange(s: Seq<char>, i: int, j: int)
    requires
        0 <= i <= j <= s.len(),
    ensures
        fold(s.subrange(i, j)) == fold(s).subrange(i, j),
{
    assert(fold(s.subrange(i, j)) =~= fold(s).subrange(i, j));
}

/// A text that holds a query holds it up to case as well.
pub proof fn lemma_contains_folds(t: Seq<char>, q: Seq<char>)
    requires
        contains(t, q),
    ensures
        contains_ignoring_case(t, q),
{
    let i = choose|i: int| occurs_at(t, q, i);
    lemma_fold_subrange(t, i, i + q.len());
    assert(fold(t).subrange(i, i + q.len()) =~= fold(q));
    assert(occurs_at(fold(t), fold(q), i));
}

/// Folding keeps prefixes.
pub proof fn lemma_fold_prefix(p: Seq<char>, s: Seq<char>)
    requires
        is_prefix(p, s),
    ensures
        is_prefix(fold(p), fold(s)),
{
    lemma_fold_subrange(s, 0, p.len() as int);
}

/// A text that holds a query holds each prefix of it.
pub proof fn lemma_contains_prefix(t: Seq<char>, p: Seq<char>, q: Seq<char>)
    requires
        is_prefix(p, q),
        contains(t, q),
    ensures
        contains(t, p),
{
    let i = choose|i: int| occurs_at(t, q, i);
    assert(t.subrange(i, i + p.len()) =~= q.subrange(0, p.len() as int));
    assert(occurs_at(t, p, i));
}

/// Extending a query can only lose matches, also up to case.
pub proof fn lemma_narrowing_keeps_containment(t: Seq<char>, p: Seq<char>, q: Seq<char>)
    requires
        is_prefix(p, q),
        contains_ignoring_case(t, q),
    ensures
        contains_ignoring_case(t, p),
{
    lemma_fold_prefix(p, q);
    lemma_contains_prefix(fold(t), fold(p), fold(q));
}

/// Folds one character.
pub fn fold_character(c: char) -> (r: char)
    ensures
        r == fold_char(c),
{
    let lower = lowercase_char(c);
    if lower.as_str().unicode_len() == 1 {
        lower.as_str().get_char(0)
    } else {
        c
    }
}

/// The characters of a string, in order.
pub fn chars_of(s: &str) -> (r: Vec<char>)
    ensures
        r@ == s@,
{
    let mut out: Vec<char> = Vec::new();
    for c in it: s.chars()
        invariant
            out@ == it.seq().take(it.index() as int),
    {
        out.push(c);
    }
    out
}

/// The folded form of a sequence of characters.
pub fn fold_chars(s: &Vec<char>) -> (r: Vec<char>)
    ensures
        r@ == fold(s@),
{
    let mut out: Vec<char> = Vec::new();
    let mut i: usize = 0;
    while i < s.len()
        invariant
            i <= s@.len(),
            out@ == fold(s@.take(i as int)),
        decreases s@.len() - i,
    {
        let c = fold_character(s[i]);
        proof {
            assert(fold(s@.take(i as int)).push(c) =~= fold(s@.take(i + 1)));
        }
        out.push(c);
        i = i + 1;
    }
    assert(s@.take(s@.len() as int) =~= s@);
    out
}

/// The folded form of a string.
pub fn fold_str(s: &str) -> (r: Vec<char>)
    ensures
        r@ == fold(s@),
{
    let cs = chars_of(s);
    fold_chars(&cs)
}

/// Whether `q` stands in `t` at position `i`.
pub fn occurs_at_exec(t: &Vec<char>, q: &Vec<char>, i: usize) -> (r: bool)
    ensures
        r == occurs_at(t@, q@, i as int),
{
    if i > t.len() || q.len() > t.len() - i {
        return false;
    }
    let mut k: usize = 0;
    while k < q.len()
        invariant
            i + q@.len() <= t@.len(),
            t@.len() <= usize::MAX,
            k <= q@.len(),
            forall|j: int| 0 <= j < k ==> t@[i + j] == q@[j],
        decreases q@.len() - k,
    {
        if t[i + k] != q[k] {
            assert(t@.subrange(i as int, i + q@.len())[k as int] != q@[k as int]);
            return false;
        }
        k = k + 1;
    }
    assert(t@.subrange(i as int, i + q@.len()) =~= q@);
    true
}

/// Whether `q` is a contiguous part of `t`. Given two folded forms, this is the
/// case-insensitive containment test.
pub fn contains_folded(t: &Vec<char>, q: &Vec<char>) -> (r: bool)
    ensures
        r == contains(t@, q@),
{
    if q.len() > t.len() {
        return false;
    }
    let last = t.len() - q.len();
    let mut i: usize = 0;
    loop
        invariant
            last == t@.len() - q@.len(),
            i <= last,
            forall|j: int| 0 <= j < i ==> !occurs_at(t@, q@, j),
        decreases last - i,
    {
        if occurs_at_exec(t, q, i) {
            return true;
        }
        if i == last {
            return false;
        }
        i = i + 1;
    }
}

/// Whether `p` is a prefix of `s`.
pub fn is_prefix_exec(p: &Vec<char>, s: &Vec<char>) -> (r: bool)
    ensures
        r == is_prefix(p@, s@),
{
    if p.len() > s.len() {
        return false;
    }
    let r = occurs_at_exec(s, p, 0);
    assert(r == (s@.subrange(0, p@.len() as int) == p@));
    r
}

/// Whether two strings hold the same characters.
pub fn str_equal(a: &str, b: &str) -> (r: bool)
    ensures
        r == (a@ == b@),
{
    let ac = chars_of(a);
    let bc = chars_of(b);
    if ac.len() != bc.len() {
        return false;
    }
    let r = is_prefix_exec(&ac, &bc);
    assert(bc@.subrange(0, ac@.len() as int) =~= bc@);
    r
}

/// Whether `s` starts with `p`.
pub fn starts_with(s: &str, p: &str) -> (r: bool)
    ensures
        r == is_prefix(p@, s@),
{
    let sc = chars_of(s);
    let pc = chars_of(p);
    is_prefix_exec(&pc, &sc)
}

/// The string made of `cs[from..to]`.
pub fn string_of(cs: &Vec<char>, from: usize, to: usize) -> (r: String)
    requires
        from <= to <= cs@.len(),
    ensures
        r@ == cs@.subrange(from as int, to as int),
{
    let mut out = String::new();
    let mut i: usize = from;
    while i < to
        invariant
            from <= i <= to <= cs@.len(),
            out@ == cs@.subrange(from as int, i as int),
        decreases to - i,
    {
        push_char(&mut out, cs[i]);
        assert(cs@.subrange(from as int, i as int).push(cs@[i as int]) =~= cs@.subrange(
            from as int,
            i + 1,
        ));
        i = i + 1;
    }
    out
}

} // verus!
