//! Character-level text operations: the sequences of `char` that strings are
//! viewed as, and executable scans over `Vec<char>` that are proved against them.

use vstd::prelude::*;
use vstd::utf8::{encode_utf8, valid_utf8};

verus! {

/// `String::push` appends one character to the end of the string.
pub assume_specification[ String::push ](s: &mut String, ch: char)
    ensures
        final(s)@ == old(s)@.push(ch),
;

/// Calls `String::from_utf8`, which succeeds if and only if the bytes are
/// valid UTF-8, and then gives the text that they encode.
#[verifier::external_body]
pub(crate) fn text_from_utf8(bytes: Vec<u8>) -> (r: Option<String>)
    ensures
        r is Some <==> valid_utf8(bytes@),
        r matches Some(text) ==> encode_utf8(text@) == bytes@,
{
    String::from_utf8(bytes).ok()
}

/// `p` stands in `t` at position `i`.
pub open spec fn has_prefix_at(t: Seq<char>, i: int, p: Seq<char>) -> bool {
    0 <= i && i + p.len() <= t.len() && t.subrange(i, i + p.len()) == p
}

/// `t` begins with `p`.
pub open spec fn starts_with(t: Seq<char>, p: Seq<char>) -> bool {
    has_prefix_at(t, 0, p)
}

/// `t` ends with `p`.
pub open spec fn ends_with(t: Seq<char>, p: Seq<char>) -> bool {
    p.len() <= t.len() && has_prefix_at(t, t.len() - p.len(), p)
}

/// The number of bytes that `t` takes as UTF-8, which is what `str::len`
/// counts.
pub open spec fn text_size(t: Seq<char>) -> nat {
    encode_utf8(t).len()
}

/// `p` stands somewhere in `t`.
pub open spec fn contains_text(t: Seq<char>, p: Seq<char>) -> bool {
    exists|i: int| has_prefix_at(t, i, p)
}

/// `i` is the leftmost position at which `p` stands in `t`.
pub open spec fn first_at(t: Seq<char>, p: Seq<char>, i: int) -> bool {
    has_prefix_at(t, i, p) && forall|j: int| 0 <= j < i ==> !has_prefix_at(t, j, p)
}

/// `t` with the leftmost occurrence of `p` replaced by `with`; `t` itself where
/// `p` does not occur.
pub open spec fn replaced_first(t: Seq<char>, p: Seq<char>, with: Seq<char>) -> Seq<char> {
    if contains_text(t, p) {
        let i = choose|i: int| first_at(t, p, i);
        t.take(i) + with + t.skip(i + p.len())
    } else {
        t
    }
}

/// The number of characters of `t` before its first `sep`; the length of `t`
/// where it holds no `sep`.
pub open spec fn first_piece_len(t: Seq<char>, sep: char) -> int
    decreases t.len(),
{
    if t.len() == 0 || t[0] == sep {
        0
    } else {
        1 + first_piece_len(t.drop_first(), sep)
    }
}

/// The pieces of `t` between its separators, in order. A text without a
/// separator is one piece, so the result is never empty.
pub open spec fn split_on(t: Seq<char>, sep: char) -> Seq<Seq<char>>
    decreases t.len(),
{
    let k = first_piece_len(t, sep);
    if 0 <= k < t.len() {
        seq![t.take(k)] + split_on(t.skip(k + 1), sep)
    } else {
        seq![t]
    }
}

/// The first `n` of `parts` with `sep` between each two neighbours.
pub open spec fn joined_upto(parts: Seq<Seq<char>>, sep: Seq<char>, n: int) -> Seq<char>
    decreases n,
{
    if n <= 0 {
        Seq::empty()
    } else if n == 1 {
        parts[0]
    } else {
        joined_upto(parts, sep, n - 1) + sep + parts[n - 1]
    }
}

/// All of `parts` with `sep` between each two neighbours.
pub open spec fn joined(parts: Seq<Seq<char>>, sep: Seq<char>) -> Seq<char> {
    joined_upto(parts, sep, parts.len() as int)
}

/// `first_piece_len` is the position of the first separator.
pub proof fn lemma_first_piece_len(t: Seq<char>, sep: char, k: int)
    requires
        0 <= k <= t.len(),
        forall|j: int| 0 <= j < k ==> t[j] != sep,
        k == t.len() || t[k] == sep,
    ensures
        first_piece_len(t, sep) == k,
    decreases t.len(),
{
    if k > 0 {
        let rest = t.drop_first();
        assert forall|j: int| 0 <= j < k - 1 implies rest[j] != sep by {
            assert(rest[j] == t[j + 1]);
        }
        lemma_first_piece_len(rest, sep, k - 1);
    }
}

/// Where `p` occurs in `t` at all, it has a leftmost occurrence, and only one.
pub proof fn lemma_first_at_unique(t: Seq<char>, p: Seq<char>, i: int)
    requires
        first_at(t, p, i),
    ensures
        contains_text(t, p),
        (choose|k: int| first_at(t, p, k)) == i,
{
    let k = choose|k: int| first_at(t, p, k);
    assert(first_at(t, p, k));
    if k < i {
        assert(!has_prefix_at(t, k, p));
    } else if i < k {
        assert(!has_prefix_at(t, i, p));
    }
}

/// The characters of `s`, in order.
pub fn chars_of(s: &str) -> (r: Vec<char>)
    ensures
        r@ == s@,
{
    let mut out: Vec<char> = Vec::new();
    for c in it: s.chars()
        invariant
            out@ == it.seq().take(it.index() as int),
            it.seq() == s@,
    {
        out.push(c);
    }
    out
}

/// The string made of the characters `t[from..to]`.
pub fn text_of_range(t: &Vec<char>, from: usize, to: usize) -> (r: String)
    requires
        from <= to <= t.len(),
    ensures
        r@ == t@.subrange(from as int, to as int),
{
    let mut out = String::new();
    let mut i: usize = from;
    while i < to
        invariant
            from <= i <= to <= t.len(),
            out@ == t@.subrange(from as int, i as int),
        decreases to - i,
    {
        out.push(t[i]);
        i += 1;
    }
    out
}

/// The string made of the characters of `t`.
pub fn text_of(t: &Vec<char>) -> (r: String)
    ensures
        r@ == t@,
{
    let r = text_of_range(t, 0, t.len());
    assert(t@.subrange(0, t.len() as int) == t@);
    r
}

/// Whether `p` stands in `t` at position `i`.
pub fn prefix_at(t: &Vec<char>, i: usize, p: &Vec<char>) -> (r: bool)
    ensures
        r == has_prefix_at(t@, i as int, p@),
{
    if p.len() > t.len() || i > t.len() - p.len() {
        return false;
    }
    let mut j: usize = 0;
    while j < p.len()
        invariant
            j <= p.len(),
            i + p.len() <= t.len(),
            forall|k: int| 0 <= k < j ==> t@[i + k] == p@[k],
        decreases p.len() - j,
    {
        if t[i + j] != p[j] {
            proof {
                let window = t@.subrange(i as int, i + p.len());
                assert(window[j as int] == t@[i + j]);
            }
            return false;
        }
        j += 1;
    }
    assert(t@.subrange(i as int, i + p.len()) =~= p@);
    true
}

/// Whether `t` ends with `p`.
pub fn suffix_of(t: &Vec<char>, p: &Vec<char>) -> (r: bool)
    ensures
        r == ends_with(t@, p@),
{
    if p.len() > t.len() {
        false
    } else {
        prefix_at(t, t.len() - p.len(), p)
    }
}

/// The leftmost position at or after `from` at which `p` stands in `t`.
pub fn find_from(t: &Vec<char>, p: &Vec<char>, from: usize) -> (r: Option<usize>)
    ensures
        match r {
            Some(i) => from <= i && has_prefix_at(t@, i as int, p@) && forall|j: int|
                from <= j < i ==> !has_prefix_at(t@, j, p@),
            None => forall|j: int| from <= j ==> !has_prefix_at(t@, j, p@),
        },
{
    if p.len() > t.len() || from > t.len() - p.len() {
        return None;
    }
    let last: usize = t.len() - p.len();
    let mut i: usize = from;
    loop
        invariant
            from <= i <= last,
            last == t.len() - p.len(),
            forall|j: int| from <= j < i ==> !has_prefix_at(t@, j, p@),
        decreases last - i,
    {
        if prefix_at(t, i, p) {
            return Some(i);
        }
        if i == last {
            return None;
        }
        i += 1;
    }
}

/// Whether `p` stands somewhere in `t`.
pub fn contains_chars(t: &Vec<char>, p: &Vec<char>) -> (r: bool)
    ensures
        r == contains_text(t@, p@),
{
    find_from(t, p, 0).is_some()
}

/// Appends the characters `t[from..to]` to `out`.
pub fn push_range(out: &mut String, t: &Vec<char>, from: usize, to: usize)
    requires
        from <= to <= t.len(),
    ensures
        final(out)@ == old(out)@ + t@.subrange(from as int, to as int),
{
    let mut i: usize = from;
    while i < to
        invariant
            from <= i <= to <= t.len(),
            out@ == old(out)@ + t@.subrange(from as int, i as int),
        decreases to - i,
    {
        out.push(t[i]);
        i += 1;
        assert(t@.subrange(from as int, i as int) == t@.subrange(from as int, i - 1).push(
            t@[i - 1],
        ));
    }
}

/// `text` with the leftmost occurrence of `marker` replaced by `with`.
pub fn replace_first(text: &str, marker: &str, with: &str) -> (r: String)
    ensures
        r@ == replaced_first(text@, marker@, with@),
{
    let t = chars_of(text);
    let p = chars_of(marker);
    match find_from(&t, &p, 0) {
        Some(i) => {
            proof {
                lemma_first_at_unique(t@, p@, i as int);
            }
            let mut out = String::new();
            push_range(&mut out, &t, 0, i);
            out.append(with);
            push_range(&mut out, &t, i + p.len(), t.len());
            assert(t@.subrange(0, i as int) == t@.take(i as int));
            assert(t@.subrange(i + p.len(), t.len() as int) == t@.skip(i + p.len()));
            out
        },
        None => {
            assert(!contains_text(t@, p@));
            text.to_owned()
        },
    }
}

/// The character sequences that the rows of `v` hold.
pub open spec fn rows(v: Seq<Vec<char>>) -> Seq<Seq<char>> {
    Seq::new(v.len(), |i: int| v[i]@)
}

/// The pieces of `t` between its separators.
pub fn split_chars(t: &Vec<char>, sep: char) -> (r: Vec<Vec<char>>)
    ensures
        rows(r@) == split_on(t@, sep),
        r.len() >= 1,
{
    let mut pieces: Vec<Vec<char>> = Vec::new();
    let mut piece: Vec<char> = Vec::new();
    let mut start: usize = 0;
    let mut i: usize = 0;
    assert(t@.skip(0) == t@);
    assert(rows(pieces@) + split_on(t@, sep) == split_on(t@, sep));
    while i < t.len()
        invariant
            start <= i <= t.len(),
            piece@ == t@.subrange(start as int, i as int),
            forall|j: int| start <= j < i ==> t@[j] != sep,
            split_on(t@, sep) == rows(pieces@) + split_on(t@.skip(start as int), sep),
        decreases t.len() - i,
    {
        if t[i] == sep {
            proof {
                let rest = t@.skip(start as int);
                assert forall|j: int| 0 <= j < i - start implies rest[j] != sep by {
                    assert(rest[j] == t@[start + j]);
                }
                lemma_first_piece_len(rest, sep, i - start);
                assert(rest.take(i - start) == piece@);
                assert(rest.skip(i - start + 1) == t@.skip(i + 1));
                assert(rows(pieces@.push(piece)) == rows(pieces@) + seq![piece@]);
            }
            pieces.push(piece);
            piece = Vec::new();
            start = i + 1;
        } else {
            piece.push(t[i]);
        }
        i += 1;
    }
    proof {
        let rest = t@.skip(start as int);
        assert forall|j: int| 0 <= j < rest.len() implies rest[j] != sep by {
            assert(rest[j] == t@[start + j]);
        }
        lemma_first_piece_len(rest, sep, rest.len() as int);
        assert(rest == piece@);
        assert(split_on(rest, sep) == seq![rest]);
        assert(rows(pieces@.push(piece)) == rows(pieces@) + seq![piece@]);
    }
    pieces.push(piece);
    pieces
}

} // verus!
