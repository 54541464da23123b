//! Character-sequence utilities that the path engine is built on: conversion
//! between `str`/`String` and `Vec<char>`, single-character replacement,
//! prefix and substring tests, ASCII case mapping, separator-run collapsing,
//! and splitting/joining on a separator character.
use vstd::prelude::*;

verus! {

broadcast use vstd::string::group_string_axioms;

/// The characters of `s` with every occurrence of `from` replaced by `to`.
pub open spec fn spec_replace(s: Seq<char>, from: char, to: char) -> Seq<char> {
    s.map_values(|c: char| if c == from { to } else { c })
}

/// `p` is a prefix of `s`.
pub open spec fn spec_starts_with(s: Seq<char>, p: Seq<char>) -> bool {
    p.len() <= s.len() && s.subrange(0, p.len() as int) == p
}

/// `p` occurs in `s` at position `i`.
pub open spec fn sub_at(s: Seq<char>, p: Seq<char>, i: int) -> bool {
    0 <= i && i + p.len() <= s.len() && s.subrange(i, i + p.len()) == p
}

/// `p` occurs somewhere in `s`.
pub open spec fn spec_contains_sub(s: Seq<char>, p: Seq<char>) -> bool {
    exists|i: int| sub_at(s, p, i)
}

/// ASCII lower-casing of one character; other characters are unchanged.
pub open spec fn lower_char(c: char) -> char {
    match c {
        'A' => 'a',
        'B' => 'b',
        'C' => 'c',
        'D' => 'd',
        'E' => 'e',
        'F' => 'f',
        'G' => 'g',
        'H' => 'h',
        'I' => 'i',
        'J' => 'j',
        'K' => 'k',
        'L' => 'l',
        'M' => 'm',
        'N' => 'n',
        'O' => 'o',
        'P' => 'p',
        'Q' => 'q',
        'R' => 'r',
        'S' => 's',
        'T' => 't',
        'U' => 'u',
        'V' => 'v',
        'W' => 'w',
        'X' => 'x',
        'Y' => 'y',
        'Z' => 'z',
        _ => c,
    }
}

/// ASCII upper-casing of one character; other characters are unchanged.
pub open spec fn upper_char(c: char) -> char {
    match c {
        'a' => 'A',
        'b' => 'B',
        'c' => 'C',
        'd' => 'D',
        'e' => 'E',
        'f' => 'F',
        'g' => 'G',
        'h' => 'H',
        'i' => 'I',
        'j' => 'J',
        'k' => 'K',
        'l' => 'L',
        'm' => 'M',
        'n' => 'N',
        'o' => 'O',
        'p' => 'P',
        'q' => 'Q',
        'r' => 'R',
        's' => 'S',
        't' => 'T',
        'u' => 'U',
        'v' => 'V',
        'w' => 'W',
        'x' => 'X',
        'y' => 'Y',
        'z' => 'Z',
        _ => c,
    }
}

/// ASCII lower-casing of a character sequence.
pub open spec fn spec_lower(s: Seq<char>) -> Seq<char> {
    s.map_values(|c: char| lower_char(c))
}

/// The characters of `s` from front to back; the view of the resulting
/// vector equals the view of the string.
pub fn str_to_chars(s: &str) -> (r: Vec<char>)
    ensures
        r@ == s@,
{
    let n = s.unicode_len();
    let mut r: Vec<char> = Vec::new();
    let mut i: usize = 0;
    while i < n
        invariant
            n == s@.len(),
            i <= n,
            r@ == s@.subrange(0, i as int),
        decreases n - i,
    {
        r.push(s.get_char(i));
        i = i + 1;
        proof {
            assert(r@ =~= s@.subrange(0, i as int));
        }
    }
    proof {
        assert(r@ =~= s@);
    }
    r
}

/// Relies on `core::iter::Iterator::collect` for `String`: collecting an
/// iterator of characters yields the string of exactly those characters,
/// in order.
#[verifier::external_body]
pub fn chars_to_string(v: &Vec<char>) -> (r: String)
    ensures
        r@ == v@,
{
    v.iter().collect()
}

/// Replace every occurrence of `from` by `to`.
pub fn replace_chars(s: &Vec<char>, from: char, to: char) -> (r: Vec<char>)
    ensures
        r@ == spec_replace(s@, from, to),
{
    let mut r: Vec<char> = Vec::new();
    let mut i: usize = 0;
    while i < s.len()
        invariant
            i <= s@.len(),
            r@ == spec_replace(s@.subrange(0, i as int), from, to),
        decreases s@.len() - i,
    {
        let c = s[i];
        if c == from {
            r.push(to);
        } else {
            r.push(c);
        }
        i = i + 1;
        proof {
            assert(r@ =~= spec_replace(s@.subrange(0, i as int), from, to));
        }
    }
    proof {
        assert(s@.subrange(0, s@.len() as int) =~= s@);
    }
    r
}

/// Whether `p` is a prefix of `s`.
pub fn starts_with_chars(s: &Vec<char>, p: &Vec<char>) -> (r: bool)
    ensures
        r == spec_starts_with(s@, p@),
{
    if p.len() > s.len() {
        proof {
            assert(!spec_starts_with(s@, p@));
        }
        return false;
    }
    let mut i: usize = 0;
    while i < p.len()
        invariant
            p@.len() <= s@.len(),
            i <= p@.len(),
            forall|j: int| 0 <= j < i ==> s@[j] == p@[j],
        decreases p@.len() - i,
    {
        if s[i] != p[i] {
            proof {
                assert(s@.subrange(0, p@.len() as int)[i as int] != p@[i as int]);
            }
            return false;
        }
        i = i + 1;
    }
    proof {
        assert(s@.subrange(0, p@.len() as int) =~= p@);
    }
    true
}

/// Whether the two vectors hold the same characters.
pub fn eq_chars(a: &Vec<char>, b: &Vec<char>) -> (r: bool)
    ensures
        r == (a@ == b@),
{
    if a.len() != b.len() {
        proof {
            assert(a@.len() != b@.len());
        }
        return false;
    }
    let mut i: usize = 0;
    while i < a.len()
        invariant
            a@.len() == b@.len(),
            i <= a@.len(),
            forall|j: int| 0 <= j < i ==> a@[j] == b@[j],
        decreases a@.len() - i,
    {
        if a[i] != b[i] {
            return false;
        }
        i = i + 1;
    }
    proof {
        assert(a@ =~= b@);
    }
    true
}

/// Whether `p` occurs anywhere in `s` as a contiguous substring.
pub fn contains_sub_chars(s: &Vec<char>, p: &Vec<char>) -> (r: bool)
    ensures
        r == spec_contains_sub(s@, p@),
{
    if p.len() > s.len() {
        proof {
            assert(forall|i: int| !sub_at(s@, p@, i));
        }
        return false;
    }
    if p.len() == 0 {
        proof {
            assert(s@.subrange(0, 0) =~= p@);
            assert(sub_at(s@, p@, 0));
        }
        return true;
    }
    let mut i: usize = 0;
    let end = s.len() - p.len();
    while i <= end
        invariant
            1 <= p@.len() <= s@.len(),
            s@.len() <= usize::MAX,
            end == s@.len() - p@.len(),
            i <= end + 1,
            forall|j: int| 0 <= j < i ==> !sub_at(s@, p@, j),
        decreases end + 1 - i,
    {
        let mut k: usize = 0;
        let mut hit = true;
        while k < p.len()
            invariant
                1 <= p@.len() <= s@.len(),
                s@.len() <= usize::MAX,
                i + p@.len() <= s@.len(),
                k <= p@.len(),
                hit == (forall|j: int| 0 <= j < k ==> s@[i + j] == p@[j]),
            decreases p@.len() - k,
        {
            if s[i + k] != p[k] {
                hit = false;
                proof {
                    assert(s@[i as int + k as int] != p@[k as int]);
                }
                k = p.len();
            } else {
                k = k + 1;
            }
        }
        if hit {
            proof {
                assert(s@.subrange(i as int, i + p@.len()) =~= p@);
                assert(sub_at(s@, p@, i as int));
            }
            return true;
        }
        proof {
            assert(s@.subrange(i as int, i + p@.len()) != p@) by {
                let w = choose|j: int| 0 <= j < p@.len() && s@[i + j] != p@[j];
                assert(s@.subrange(i as int, i + p@.len())[w] != p@[w]);
            }
        }
        i = i + 1;
    }
    proof {
        assert(forall|j: int| j > end ==> !sub_at(s@, p@, j));
    }
    false
}

/// Whether `c` occurs in `s`.
pub fn contains_char(s: &Vec<char>, c: char) -> (r: bool)
    ensures
        r == s@.contains(c),
{
    let mut i: usize = 0;
    while i < s.len()
        invariant
            i <= s@.len(),
            forall|j: int| 0 <= j < i ==> s@[j] != c,
        decreases s@.len() - i,
    {
        if s[i] == c {
            return true;
        }
        i = i + 1;
    }
    false
}

/// ASCII lower-casing of one character.
pub fn to_lower_char(c: char) -> (r: char)
    ensures
        r == lower_char(c),
{
    match c {
        'A' => 'a',
        'B' => 'b',
        'C' => 'c',
        'D' => 'd',
        'E' => 'e',
        'F' => 'f',
        'G' => 'g',
        'H' => 'h',
        'I' => 'i',
        'J' => 'j',
        'K' => 'k',
        'L' => 'l',
        'M' => 'm',
        'N' => 'n',
        'O' => 'o',
        'P' => 'p',
        'Q' => 'q',
        'R' => 'r',
        'S' => 's',
        'T' => 't',
        'U' => 'u',
        'V' => 'v',
        'W' => 'w',
        'X' => 'x',
        'Y' => 'y',
        'Z' => 'z',
        _ => c,
    }
}

/// ASCII upper-casing of one character.
pub fn to_upper_char(c: char) -> (r: char)
    ensures
        r == upper_char(c),
{
    match c {
        'a' => 'A',
        'b' => 'B',
        'c' => 'C',
        'd' => 'D',
        'e' => 'E',
        'f' => 'F',
        'g' => 'G',
        'h' => 'H',
        'i' => 'I',
        'j' => 'J',
        'k' => 'K',
        'l' => 'L',
        'm' => 'M',
        'n' => 'N',
        'o' => 'O',
        'p' => 'P',
        'q' => 'Q',
        'r' => 'R',
        's' => 'S',
        't' => 'T',
        'u' => 'U',
        'v' => 'V',
        'w' => 'W',
        'x' => 'X',
        'y' => 'Y',
        'z' => 'Z',
        _ => c,
    }
}

/// `s` with every run of consecutive `sep` characters collapsed to one.
pub open spec fn spec_collapse(s: Seq<char>, sep: char) -> Seq<char>
    decreases s.len(),
{
    if s.len() == 0 {
        s
    } else {
        let r = spec_collapse(s.drop_last(), sep);
        if s.last() == sep && r.len() > 0 && r.last() == sep {
            r
        } else {
            r.push(s.last())
        }
    }
}

/// Collapse every run of `sep` to a single `sep`.
pub fn collapse_chars(s: &Vec<char>, sep: char) -> (r: Vec<char>)
    ensures
        r@ == spec_collapse(s@, sep),
{
    let mut r: Vec<char> = Vec::new();
    let mut i: usize = 0;
    while i < s.len()
        invariant
            i <= s@.len(),
            r@ == spec_collapse(s@.subrange(0, i as int), sep),
        decreases s@.len() - i,
    {
        let c = s[i];
        let skip = c == sep && r.len() > 0 && r[r.len() - 1] == sep;
        if !skip {
            r.push(c);
        }
        i = i + 1;
        proof {
            assert(s@.subrange(0, i as int).drop_last() =~= s@.subrange(0, i - 1));
        }
    }
    proof {
        assert(s@.subrange(0, s@.len() as int) =~= s@);
    }
    r
}

/// All segments of `s` delimited by `sep`, empty segments included; a string
/// with no separator is one segment, and each separator starts a new one.
pub open spec fn split_full(s: Seq<char>, sep: char) -> Seq<Seq<char>>
    decreases s.len(),
{
    if s.len() == 0 {
        seq![Seq::<char>::empty()]
    } else {
        let r = split_full(s.drop_last(), sep);
        if s.last() == sep {
            r.push(Seq::<char>::empty())
        } else {
            r.update(r.len() - 1, r.last().push(s.last()))
        }
    }
}

/// A segment list always has at least one segment.
pub proof fn lemma_split_full_len(s: Seq<char>, sep: char)
    ensures
        split_full(s, sep).len() >= 1,
    decreases s.len(),
{
    if s.len() > 0 {
        lemma_split_full_len(s.drop_last(), sep);
    }
}

/// The subsequence of non-empty segments.
pub open spec fn keep_nonempty(s: Seq<Seq<char>>) -> Seq<Seq<char>>
    decreases s.len(),
{
    if s.len() == 0 {
        s
    } else {
        let r = keep_nonempty(s.drop_last());
        if s.last().len() > 0 {
            r.push(s.last())
        } else {
            r
        }
    }
}

/// Every kept segment is non-empty and occurs in the original list.
pub proof fn lemma_keep_nonempty_elems(s: Seq<Seq<char>>)
    ensures
        forall|i: int|
            0 <= i < keep_nonempty(s).len() ==> (#[trigger] keep_nonempty(s)[i]).len() > 0
                && s.contains(keep_nonempty(s)[i]),
    decreases s.len(),
{
    if s.len() > 0 {
        lemma_keep_nonempty_elems(s.drop_last());
        let pre = keep_nonempty(s.drop_last());
        let post = keep_nonempty(s);
        assert forall|i: int| 0 <= i < post.len() implies (#[trigger] post[i]).len() > 0
            && s.contains(post[i]) by {
            if i < pre.len() {
                assert(post[i] == pre[i]);
                let j = choose|j: int| 0 <= j < s.drop_last().len() && s.drop_last()[j] == pre[i];
                assert(s[j] == pre[i]);
            } else {
                assert(post[i] == s.last());
                assert(s[s.len() - 1] == s.last());
            }
        }
    }
}

/// The non-empty segments of `s` delimited by `sep`, in order.
pub open spec fn split_parts(s: Seq<char>, sep: char) -> Seq<Seq<char>> {
    keep_nonempty(split_full(s, sep))
}

/// The segments joined with `sep` between consecutive segments.
pub open spec fn join_parts(parts: Seq<Seq<char>>, sep: char) -> Seq<char>
    decreases parts.len(),
{
    if parts.len() == 0 {
        Seq::<char>::empty()
    } else if parts.len() == 1 {
        parts[0]
    } else {
        join_parts(parts.drop_last(), sep) + seq![sep] + parts.last()
    }
}

/// Split `s` on `sep`, keeping empty segments.
pub fn split_full_chars(s: &Vec<char>, sep: char) -> (r: Vec<Vec<char>>)
    ensures
        r.deep_view() == split_full(s@, sep),
{
    let mut r: Vec<Vec<char>> = Vec::new();
    let mut cur: Vec<char> = Vec::new();
    let mut i: usize = 0;
    proof {
        assert(r.deep_view() =~~= split_full(s@.subrange(0, 0), sep).drop_last());
    }
    while i < s.len()
        invariant
            i <= s@.len(),
            split_full(s@.subrange(0, i as int), sep).len() >= 1,
            r.deep_view() == split_full(s@.subrange(0, i as int), sep).drop_last(),
            cur@ == split_full(s@.subrange(0, i as int), sep).last(),
        decreases s@.len() - i,
    {
        let ghost pre = split_full(s@.subrange(0, i as int), sep);
        let ghost rdv = r.deep_view();
        let c = s[i];
        if c == sep {
            r.push(cur);
            cur = Vec::new();
        } else {
            cur.push(c);
        }
        i = i + 1;
        proof {
            assert(s@.subrange(0, i as int).drop_last() =~= s@.subrange(0, i - 1));
            let post = split_full(s@.subrange(0, i as int), sep);
            lemma_split_full_len(s@.subrange(0, i - 1), sep);
            if c == sep {
                assert(post == pre.push(Seq::<char>::empty()));
                assert(r.deep_view() =~~= rdv.push(pre.last()));
                assert(rdv.push(pre.last()) =~~= pre);
                assert(post.drop_last() =~~= pre);
            } else {
                assert(post == pre.update(pre.len() - 1, pre.last().push(c)));
                assert(post.drop_last() =~~= pre.drop_last());
            }
        }
    }
    let ghost full = split_full(s@, sep);
    proof {
        assert(s@.subrange(0, s@.len() as int) =~= s@);
        lemma_split_full_len(s@, sep);
    }
    let ghost rdv = r.deep_view();
    r.push(cur);
    proof {
        assert(r.deep_view() =~~= rdv.push(full.last()));
        assert(rdv.push(full.last()) =~~= full);
    }
    r
}

/// Split `s` on `sep`, discarding empty segments.
pub fn split_parts_chars(s: &Vec<char>, sep: char) -> (r: Vec<Vec<char>>)
    ensures
        r.deep_view() == split_parts(s@, sep),
{
    let full = split_full_chars(s, sep);
    let mut r: Vec<Vec<char>> = Vec::new();
    let mut i: usize = 0;
    proof {
        assert(r.deep_view() =~~= keep_nonempty(full.deep_view().subrange(0, 0)));
    }
    while i < full.len()
        invariant
            i <= full@.len(),
            r.deep_view() == keep_nonempty(full.deep_view().subrange(0, i as int)),
        decreases full@.len() - i,
    {
        let ghost pre = full.deep_view().subrange(0, i as int);
        let ghost rdv = r.deep_view();
        if full[i].len() > 0 {
            let seg = full[i].clone();
            proof {
                broadcast use vstd::std_specs::vec::group_vec_axioms;

                assert(seg@ == full.deep_view()[i as int]);
            }
            r.push(seg);
        }
        i = i + 1;
        proof {
            let post = full.deep_view().subrange(0, i as int);
            assert(post.drop_last() =~~= pre);
            assert(post.last() == full.deep_view()[i - 1]);
            if full.deep_view()[i - 1].len() > 0 {
                assert(r.deep_view() =~~= rdv.push(full.deep_view()[i - 1]));
                assert(r.deep_view() =~~= keep_nonempty(post));
            } else {
                assert(r.deep_view() =~~= keep_nonempty(post));
            }
        }
    }
    proof {
        assert(full.deep_view().subrange(0, full@.len() as int) =~~= full.deep_view());
    }
    r
}

/// Join the segments with `sep` between consecutive segments.
pub fn join_chars(parts: &Vec<Vec<char>>, sep: char) -> (r: Vec<char>)
    ensures
        r@ == join_parts(parts.deep_view(), sep),
{
    let mut r: Vec<char> = Vec::new();
    let mut i: usize = 0;
    while i < parts.len()
        invariant
            i <= parts@.len(),
            r@ == join_parts(parts.deep_view().subrange(0, i as int), sep),
        decreases parts@.len() - i,
    {
        if i > 0 {
            r.push(sep);
        }
        let ghost base = r@;
        let mut j: usize = 0;
        while j < parts[i].len()
            invariant
                i < parts@.len(),
                j <= parts@[i as int]@.len(),
                r@ == base + parts@[i as int]@.subrange(0, j as int),
            decreases parts@[i as int]@.len() - j,
        {
            r.push(parts[i][j]);
            j = j + 1;
            proof {
                assert(r@ =~= base + parts@[i as int]@.subrange(0, j as int));
            }
        }
        i = i + 1;
        proof {
            let dv = parts.deep_view();
            assert(parts@[i - 1]@.subrange(0, parts@[i - 1]@.len() as int) =~= dv[i - 1]);
            assert(dv.subrange(0, i as int).drop_last() =~~= dv.subrange(0, i - 1));
            if i == 1 {
                assert(r@ =~= join_parts(dv.subrange(0, 1), sep));
            } else {
                assert(r@ =~= join_parts(dv.subrange(0, i as int), sep));
            }
        }
    }
    proof {
        assert(parts.deep_view().subrange(0, parts@.len() as int) =~~= parts.deep_view());
    }
    r
}

/// Append all characters of `src` to `dst`.
pub fn append_chars(dst: &mut Vec<char>, src: &Vec<char>)
    ensures
        final(dst)@ == old(dst)@ + src@,
{
    let ghost base = dst@;
    let mut i: usize = 0;
    while i < src.len()
        invariant
            i <= src@.len(),
            dst@ == base + src@.subrange(0, i as int),
        decreases src@.len() - i,
    {
        dst.push(src[i]);
        i = i + 1;
        proof {
            assert(dst@ =~= base + src@.subrange(0, i as int));
        }
    }
    proof {
        assert(src@.subrange(0, src@.len() as int) =~= src@);
    }
}

/// Append the characters of a string literal to `dst`.
pub fn append_lit(dst: &mut Vec<char>, lit: &str)
    ensures
        final(dst)@ == old(dst)@ + lit@,
{
    let src = str_to_chars(lit);
    append_chars(dst, &src);
}

/// Index of the first occurrence of `c` in `s`, or `-1` if there is none.
pub open spec fn spec_find(s: Seq<char>, c: char) -> int
    decreases s.len(),
{
    if s.len() == 0 {
        -1
    } else if s[0] == c {
        0
    } else if spec_find(s.drop_first(), c) == -1 {
        -1
    } else {
        spec_find(s.drop_first(), c) + 1
    }
}

/// `spec_find` returns `-1` exactly when `c` does not occur, and otherwise
/// the position of the first occurrence.
pub proof fn lemma_spec_find(s: Seq<char>, c: char)
    ensures
        spec_find(s, c) == -1 ==> !s.contains(c),
        spec_find(s, c) != -1 ==> 0 <= spec_find(s, c) < s.len() && s[spec_find(s, c)] == c
            && (forall|j: int| 0 <= j < spec_find(s, c) ==> s[j] != c),
    decreases s.len(),
{
    if s.len() > 0 && s[0] != c {
        lemma_spec_find(s.drop_first(), c);
        let t = s.drop_first();
        if spec_find(t, c) == -1 {
            assert forall|i: int| 0 <= i < s.len() implies s[i] != c by {
                if i > 0 {
                    assert(t[i - 1] != c);
                }
            }
        } else {
            assert forall|j: int| 0 <= j < spec_find(s, c) implies s[j] != c by {
                if j > 0 {
                    assert(t[j - 1] != c);
                }
            }
        }
    }
}

/// Position of the first occurrence of `c` in `s`, if any.
pub fn find_char(s: &Vec<char>, c: char) -> (r: Option<usize>)
    ensures
        match r {
            Some(i) => i < s@.len() && s@[i as int] == c && (forall|j: int|
                0 <= j < i ==> s@[j] != c) && i as int == spec_find(s@, c),
            None => !s@.contains(c) && spec_find(s@, c) == -1,
        },
{
    proof {
        lemma_spec_find(s@, c);
    }
    let mut i: usize = 0;
    while i < s.len()
        invariant
            i <= s@.len(),
            forall|j: int| 0 <= j < i ==> s@[j] != c,
            spec_find(s@, c) == -1 ==> !s@.contains(c),
            spec_find(s@, c) != -1 ==> 0 <= spec_find(s@, c) < s@.len() && s@[spec_find(s@, c)]
                == c && (forall|j: int| 0 <= j < spec_find(s@, c) ==> s@[j] != c),
        decreases s@.len() - i,
    {
        if s[i] == c {
            proof {
                if spec_find(s@, c) == -1 {
                    assert(s@[i as int] == c);
                }
                if spec_find(s@, c) < i {
                    assert(s@[spec_find(s@, c)] != c);
                }
                if spec_find(s@, c) > i {
                    assert(s@[i as int] != c);
                }
            }
            return Some(i);
        }
        i = i + 1;
    }
    proof {
        if spec_find(s@, c) != -1 {
            assert(s@[spec_find(s@, c)] != c);
        }
        if s@.contains(c) {
            let w = choose|w: int| 0 <= w < s@.len() && s@[w] == c;
            assert(s@[w] != c);
        }
    }
    None
}

/// A string without the separator is a single segment.
pub proof fn lemma_split_sepfree(x: Seq<char>, sep: char)
    requires
        !x.contains(sep),
    ensures
        split_full(x, sep) == seq![x],
    decreases x.len(),
{
    if x.len() == 0 {
        assert(split_full(x, sep) =~~= seq![x]);
    } else {
        assert(!x.drop_last().contains(sep)) by {
            if x.drop_last().contains(sep) {
                let i = choose|i: int| 0 <= i < x.drop_last().len() && x.drop_last()[i] == sep;
                assert(x[i] == sep);
            }
        }
        lemma_split_sepfree(x.drop_last(), sep);
        assert(x[x.len() - 1] == x.last());
        assert(x.last() != sep);
        assert(split_full(x, sep) =~~= seq![x]);
    }
}

/// Appending separator-free text extends the final segment.
pub proof fn lemma_split_append_sepfree(a: Seq<char>, b: Seq<char>, sep: char)
    requires
        !b.contains(sep),
    ensures
        split_full(a + b, sep) == split_full(a, sep).update(
            split_full(a, sep).len() - 1,
            split_full(a, sep).last() + b,
        ),
    decreases b.len(),
{
    lemma_split_full_len(a, sep);
    let sa = split_full(a, sep);
    if b.len() == 0 {
        assert(a + b =~= a);
        assert(sa.last() + b =~= sa.last());
        assert(sa.update(sa.len() - 1, sa.last() + b) =~~= sa);
    } else {
        assert(!b.drop_last().contains(sep)) by {
            if b.drop_last().contains(sep) {
                let i = choose|i: int| 0 <= i < b.drop_last().len() && b.drop_last()[i] == sep;
                assert(b[i] == sep);
            }
        }
        lemma_split_append_sepfree(a, b.drop_last(), sep);
        assert(b[b.len() - 1] == b.last());
        assert(b.last() != sep);
        assert((a + b).drop_last() =~= a + b.drop_last());
        assert((a + b).last() == b.last());
        let mid = split_full(a + b.drop_last(), sep);
        assert(mid == sa.update(sa.len() - 1, sa.last() + b.drop_last()));
        assert(mid.len() == sa.len());
        assert(mid.last() == sa.last() + b.drop_last());
        assert(split_full(a + b, sep) == mid.update(mid.len() - 1, mid.last().push(b.last())));
        assert((sa.last() + b.drop_last()).push(b.last()) =~= sa.last() + b);
        assert(mid.update(mid.len() - 1, mid.last().push(b.last())) =~~= sa.update(
            sa.len() - 1,
            sa.last() + b,
        ));
    }
}

/// Appending one separator starts a new empty segment.
pub proof fn lemma_split_push_sep(a: Seq<char>, sep: char)
    ensures
        split_full(a + seq![sep], sep) == split_full(a, sep).push(Seq::<char>::empty()),
{
    assert((a + seq![sep]).drop_last() =~= a);
    assert((a + seq![sep]).last() == sep);
    assert(split_full(a + seq![sep], sep) =~~= split_full(a, sep).push(Seq::<char>::empty()));
}

/// A leading separator contributes one leading empty segment.
pub proof fn lemma_split_prepend_sep(x: Seq<char>, sep: char)
    ensures
        split_full(seq![sep] + x, sep) == seq![Seq::<char>::empty()] + split_full(x, sep),
    decreases x.len(),
{
    if x.len() == 0 {
        assert(seq![sep] + x =~= seq![sep]);
        assert((seq![sep]).drop_last() =~= Seq::<char>::empty());
        assert((seq![sep]).last() == sep);
        assert(split_full(seq![sep], sep) == split_full(Seq::<char>::empty(), sep).push(
            Seq::<char>::empty(),
        ));
        assert(x =~= Seq::<char>::empty());
        assert(split_full(seq![sep] + x, sep) =~~= seq![Seq::<char>::empty()] + split_full(
            x,
            sep,
        ));
    } else {
        lemma_split_prepend_sep(x.drop_last(), sep);
        lemma_split_full_len(x.drop_last(), sep);
        assert((seq![sep] + x).drop_last() =~= seq![sep] + x.drop_last());
        assert((seq![sep] + x).last() == x.last());
        let sd = split_full(x.drop_last(), sep);
        let pre = seq![Seq::<char>::empty()] + sd;
        assert(split_full(seq![sep] + x.drop_last(), sep) == pre);
        assert(pre.last() == sd.last());
        assert(pre.len() == sd.len() + 1);
        if x.last() == sep {
            assert(split_full(seq![sep] + x, sep) =~~= seq![Seq::<char>::empty()] + split_full(
                x,
                sep,
            ));
        } else {
            assert(pre.update(pre.len() - 1, pre.last().push(x.last())) =~~= seq![
                Seq::<char>::empty(),
            ] + sd.update(sd.len() - 1, sd.last().push(x.last())));
        }
    }
}

/// A leading empty segment does not change the non-empty segments.
pub proof fn lemma_keep_prepend_empty(s: Seq<Seq<char>>)
    ensures
        keep_nonempty(seq![Seq::<char>::empty()] + s) == keep_nonempty(s),
    decreases s.len(),
{
    if s.len() == 0 {
        assert(seq![Seq::<char>::empty()] + s =~~= seq![Seq::<char>::empty()]);
        assert((seq![Seq::<char>::empty()]).drop_last() =~~= Seq::<Seq<char>>::empty());
        assert(keep_nonempty(Seq::<Seq<char>>::empty()) =~~= Seq::<Seq<char>>::empty());
        assert(keep_nonempty(seq![Seq::<char>::empty()]) =~~= keep_nonempty(s));
    } else {
        lemma_keep_prepend_empty(s.drop_last());
        assert((seq![Seq::<char>::empty()] + s).drop_last() =~~= seq![Seq::<char>::empty()]
            + s.drop_last());
        assert((seq![Seq::<char>::empty()] + s).last() == s.last());
        assert(keep_nonempty(seq![Seq::<char>::empty()] + s) =~~= keep_nonempty(s));
    }
}

/// Splitting a join on the separator recovers the segments, provided every
/// segment is non-empty and free of the separator.
pub proof fn lemma_join_split_inverse(parts: Seq<Seq<char>>, sep: char)
    requires
        forall|i: int|
            0 <= i < parts.len() ==> (#[trigger] parts[i]).len() > 0 && !parts[i].contains(sep),
    ensures
        split_parts(join_parts(parts, sep), sep) == parts,
    decreases parts.len(),
{
    if parts.len() == 0 {
        assert(join_parts(parts, sep) == Seq::<char>::empty());
        assert(split_full(Seq::<char>::empty(), sep) =~~= seq![Seq::<char>::empty()]);
        assert((seq![Seq::<char>::empty()]).drop_last() =~~= Seq::<Seq<char>>::empty());
        assert(keep_nonempty(Seq::<Seq<char>>::empty()) =~~= Seq::<Seq<char>>::empty());
        assert(keep_nonempty(seq![Seq::<char>::empty()]) =~~= Seq::<Seq<char>>::empty());
        assert(split_parts(join_parts(parts, sep), sep) =~~= parts);
    } else if parts.len() == 1 {
        lemma_split_sepfree(parts[0], sep);
        assert(split_full(parts[0], sep) == seq![parts[0]]);
        assert((seq![parts[0]]).drop_last() =~~= Seq::<Seq<char>>::empty());
        assert(parts[0].len() > 0);
        assert(keep_nonempty(Seq::<Seq<char>>::empty()) =~~= Seq::<Seq<char>>::empty());
        assert((seq![parts[0]]).last() == parts[0]);
        assert(keep_nonempty(seq![parts[0]]) =~~= seq![parts[0]]);
        assert(split_parts(join_parts(parts, sep), sep) =~~= parts);
    } else {
        let front = parts.drop_last();
        lemma_join_split_inverse(front, sep);
        let jf = join_parts(front, sep);
        lemma_split_push_sep(jf, sep);
        lemma_split_append_sepfree(jf + seq![sep], parts.last(), sep);
        lemma_split_full_len(jf, sep);
        let sj = split_full(jf, sep);
        let se = split_full(jf + seq![sep], sep);
        assert(se == sj.push(Seq::<char>::empty()));
        assert(se.last() == Seq::<char>::empty());
        let sfull = split_full(jf + seq![sep] + parts.last(), sep);
        assert(sfull == se.update(se.len() - 1, se.last() + parts.last()));
        assert(Seq::<char>::empty() + parts.last() =~= parts.last());
        assert(sfull =~~= sj.push(parts.last()));
        assert(join_parts(parts, sep) == jf + seq![sep] + parts.last());
        assert(sfull.drop_last() =~~= sj);
        assert(parts.last().len() > 0);
        assert(sfull.last() == parts.last());
        assert(keep_nonempty(sfull) == keep_nonempty(sj).push(parts.last()));
        assert(keep_nonempty(sj).push(parts.last()) =~~= parts);
    }
}

/// A join of non-empty segments starts with the first character of the
/// first segment.
pub proof fn lemma_join_first(parts: Seq<Seq<char>>, sep: char)
    requires
        parts.len() > 0,
        forall|i: int| 0 <= i < parts.len() ==> (#[trigger] parts[i]).len() > 0,
    ensures
        join_parts(parts, sep).len() > 0,
        join_parts(parts, sep)[0] == parts[0][0],
    decreases parts.len(),
{
    if parts.len() > 1 {
        lemma_join_first(parts.drop_last(), sep);
    }
}

/// Every segment produced by `split_parts` is non-empty and separator-free.
pub proof fn lemma_split_parts_elems(s: Seq<char>, sep: char)
    ensures
        forall|i: int|
            0 <= i < split_parts(s, sep).len() ==> (#[trigger] split_parts(s, sep)[i]).len() > 0
                && !split_parts(s, sep)[i].contains(sep),
{
    lemma_split_full_elems(s, sep);
    lemma_keep_nonempty_elems(split_full(s, sep));
    let full = split_full(s, sep);
    let parts = split_parts(s, sep);
    assert forall|i: int| 0 <= i < parts.len() implies (#[trigger] parts[i]).len() > 0
        && !parts[i].contains(sep) by {
        assert(full.contains(parts[i]));
        let j = choose|j: int| 0 <= j < full.len() && full[j] == parts[i];
        assert(!full[j].contains(sep));
    }
}

/// Splitting cannot introduce a character: when `c` occurs nowhere in `s`,
/// it occurs in no segment either.
pub proof fn lemma_split_full_avoid(s: Seq<char>, sep: char, c: char)
    requires
        !s.contains(c),
    ensures
        forall|i: int|
            0 <= i < split_full(s, sep).len() ==> !(#[trigger] split_full(s, sep)[i]).contains(c),
    decreases s.len(),
{
    if s.len() == 0 {
        assert forall|i: int| 0 <= i < split_full(s, sep).len() implies !(#[trigger] split_full(
            s,
            sep,
        )[i]).contains(c) by {
            assert(split_full(s, sep)[i] == Seq::<char>::empty());
        }
    } else {
        assert(!s.drop_last().contains(c)) by {
            if s.drop_last().contains(c) {
                let w = choose|w: int| 0 <= w < s.drop_last().len() && s.drop_last()[w] == c;
                assert(s[w] == c);
            }
        }
        assert(s.last() != c) by {
            if s.last() == c {
                assert(s[s.len() - 1] == c);
            }
        }
        lemma_split_full_avoid(s.drop_last(), sep, c);
        lemma_split_full_len(s.drop_last(), sep);
        let pre = split_full(s.drop_last(), sep);
        let post = split_full(s, sep);
        assert forall|i: int| 0 <= i < post.len() implies !(#[trigger] post[i]).contains(c) by {
            if s.last() == sep {
                if i < pre.len() {
                    assert(post[i] == pre[i]);
                } else {
                    assert(post[i] == Seq::<char>::empty());
                }
            } else {
                if i < pre.len() - 1 {
                    assert(post[i] == pre[i]);
                } else {
                    assert(post[i] == pre.last().push(s.last()));
                    assert(!pre.last().contains(c));
                    if post[i].contains(c) {
                        let k = choose|k: int| 0 <= k < post[i].len() && post[i][k] == c;
                        if k < pre.last().len() {
                            assert(pre.last()[k] == c);
                        }
                    }
                }
            }
        }
    }
}

/// The non-empty segments inherit the same absence.
pub proof fn lemma_split_parts_avoid(s: Seq<char>, sep: char, c: char)
    requires
        !s.contains(c),
    ensures
        forall|i: int|
            0 <= i < split_parts(s, sep).len() ==> !(#[trigger] split_parts(s, sep)[i]).contains(
                c,
            ),
{
    lemma_split_full_avoid(s, sep, c);
    lemma_keep_nonempty_elems(split_full(s, sep));
    let full = split_full(s, sep);
    let parts = split_parts(s, sep);
    assert forall|i: int| 0 <= i < parts.len() implies !(#[trigger] parts[i]).contains(c) by {
        assert(full.contains(parts[i]));
        let j = choose|j: int| 0 <= j < full.len() && full[j] == parts[i];
        assert(!full[j].contains(c));
    }
}

/// Every segment produced by `split_full` is separator-free.
pub proof fn lemma_split_full_elems(s: Seq<char>, sep: char)
    ensures
        forall|i: int|
            0 <= i < split_full(s, sep).len() ==> !(#[trigger] split_full(s, sep)[i]).contains(
                sep,
            ),
    decreases s.len(),
{
    if s.len() == 0 {
        assert forall|i: int| 0 <= i < split_full(s, sep).len() implies !(#[trigger] split_full(
            s,
            sep,
        )[i]).contains(sep) by {
            assert(split_full(s, sep)[i] == Seq::<char>::empty());
        }
    } else {
        lemma_split_full_elems(s.drop_last(), sep);
        lemma_split_full_len(s.drop_last(), sep);
        let pre = split_full(s.drop_last(), sep);
        let post = split_full(s, sep);
        assert forall|i: int| 0 <= i < post.len() implies !(#[trigger] post[i]).contains(sep) by {
            if s.last() == sep {
                if i < pre.len() {
                    assert(post[i] == pre[i]);
                } else {
                    assert(post[i] == Seq::<char>::empty());
                }
            } else {
                if i < pre.len() - 1 {
                    assert(post[i] == pre[i]);
                } else {
                    assert(post[i] == pre.last().push(s.last()));
                    assert(!pre.last().contains(sep));
                    if post[i].contains(sep) {
                        let k = choose|k: int| 0 <= k < post[i].len() && post[i][k] == sep;
                        if k < pre.last().len() {
                            assert(pre.last()[k] == sep);
                        }
                    }
                }
            }
        }
    }
}

} // verus!
