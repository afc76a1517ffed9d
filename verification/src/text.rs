//! Verified text utilities: character-level string equality, decimal
//! rendering, splitting and joining on a separator character, and tag
//! normalisation.  Strings are built as `Vec<char>` and converted once at
//! the end, so every transformation is visible to the verifier.

use vstd::prelude::*;
use vstd::string::*;

verus! {

/// The lowercase expansion of a character, as produced by the standard
/// library's Unicode case mapping.
pub uninterp spec fn lower_of(c: char) -> Seq<char>;

/// Relies on char::to_lowercase: the expansion depends on the character
/// alone (the mapping is locale-independent) and yields at least one
/// character.
#[verifier::external_body]
pub fn lower_chars(c: char) -> (r: Vec<char>)
    ensures
        r@ == lower_of(c),
        r@.len() >= 1,
{
    c.to_lowercase().collect()
}

/// Relies on String's FromIterator over char: collecting yields exactly the
/// given characters in order.
#[verifier::external_body]
pub fn chars_to_string(v: &Vec<char>) -> (s: String)
    ensures
        s@ == v@,
{
    v.iter().collect()
}

/// Copies the characters of a string slice into a vector.
pub fn to_chars(s: &str) -> (r: Vec<char>)
    ensures
        r@ == s@,
{
    let n: usize = s.unicode_len();
    let mut r: Vec<char> = Vec::new();
    let mut i: usize = 0;
    while i < n
        invariant
            i <= n,
            n == s@.len(),
            r@ == s@.take(i as int),
        decreases n - i,
    {
        let c = s.get_char(i);
        r.push(c);
        proof {
            assert(s@.take(i + 1 as int) =~= s@.take(i as int).push(s@[i as int]));
        }
        i = i + 1;
    }
    proof {
        assert(s@.take(n as int) =~= s@);
    }
    r
}

/// Character-for-character equality of two string slices.
pub fn str_eq(a: &str, b: &str) -> (r: bool)
    ensures
        r == (a@ == b@),
{
    let alen: usize = a.unicode_len();
    let blen: usize = b.unicode_len();
    if alen != blen {
        return false;
    }
    let mut i: usize = 0;
    while i < alen
        invariant
            i <= alen,
            alen == a@.len(),
            blen == b@.len(),
            alen == blen,
            forall|j: int| 0 <= j < i ==> a@[j] == b@[j],
        decreases alen - i,
    {
        if a.get_char(i) != b.get_char(i) {
            return false;
        }
        i = i + 1;
    }
    proof {
        assert(a@ =~= b@);
    }
    true
}

/// Appends the characters of a string slice to a character vector.
pub fn push_str_chars(out: &mut Vec<char>, s: &str)
    ensures
        final(out)@ == old(out)@ + s@,
{
    let n: usize = s.unicode_len();
    let mut i: usize = 0;
    while i < n
        invariant
            i <= n,
            n == s@.len(),
            out@ == old(out)@ + s@.take(i as int),
        decreases n - i,
    {
        let c = s.get_char(i);
        out.push(c);
        proof {
            assert(s@.take(i + 1 as int) =~= s@.take(i as int).push(s@[i as int]));
            assert(old(out)@ + s@.take(i as int).push(s@[i as int]) =~= (old(out)@ + s@.take(
                i as int,
            )).push(s@[i as int]));
        }
        i = i + 1;
    }
    proof {
        assert(s@.take(n as int) =~= s@);
    }
}

/// The decimal digit character for a value below ten.
pub open spec fn dec_digit(d: nat) -> char
    recommends
        d < 10,
{
    if d == 0 {
        '0'
    } else if d == 1 {
        '1'
    } else if d == 2 {
        '2'
    } else if d == 3 {
        '3'
    } else if d == 4 {
        '4'
    } else if d == 5 {
        '5'
    } else if d == 6 {
        '6'
    } else if d == 7 {
        '7'
    } else if d == 8 {
        '8'
    } else {
        '9'
    }
}

/// The usual decimal rendering of a natural number, without leading zeros.
pub open spec fn dec_str(n: nat) -> Seq<char>
    decreases n,
{
    if n < 10 {
        seq![dec_digit(n)]
    } else {
        dec_str(n / 10).push(dec_digit(n % 10))
    }
}

fn dec_digit_char(d: u32) -> (c: char)
    requires
        d < 10,
    ensures
        c == dec_digit(d as nat),
{
    if d == 0 {
        '0'
    } else if d == 1 {
        '1'
    } else if d == 2 {
        '2'
    } else if d == 3 {
        '3'
    } else if d == 4 {
        '4'
    } else if d == 5 {
        '5'
    } else if d == 6 {
        '6'
    } else if d == 7 {
        '7'
    } else if d == 8 {
        '8'
    } else {
        '9'
    }
}

/// Appends the decimal rendering of `n` to a character vector.
pub fn push_dec(out: &mut Vec<char>, n: u32)
    ensures
        final(out)@ == old(out)@ + dec_str(n as nat),
    decreases n,
{
    if n < 10 {
        let c = dec_digit_char(n);
        out.push(c);
        proof {
            assert(old(out)@.push(dec_digit(n as nat)) =~= old(out)@ + dec_str(n as nat));
        }
    } else {
        push_dec(out, n / 10);
        let c = dec_digit_char(n % 10);
        out.push(c);
        proof {
            assert((old(out)@ + dec_str((n / 10) as nat)).push(dec_digit((n % 10) as nat)) =~= old(
                out,
            )@ + dec_str(n as nat));
        }
    }
}

/// Splitting a character sequence on a separator, in the style of
/// str::split: the result always holds at least one piece, and empty pieces
/// are kept.
pub open spec fn split_on(s: Seq<char>, sep: char) -> Seq<Seq<char>>
    decreases s.len(),
{
    if s.len() == 0 {
        seq![Seq::<char>::empty()]
    } else {
        let rest = split_on(s.drop_first(), sep);
        if s[0] == sep {
            seq![Seq::<char>::empty()] + rest
        } else {
            rest.update(0, seq![s[0]] + rest[0])
        }
    }
}

pub proof fn lemma_split_on_len(s: Seq<char>, sep: char)
    ensures
        split_on(s, sep).len() >= 1,
    decreases s.len(),
{
    if s.len() > 0 {
        lemma_split_on_len(s.drop_first(), sep);
    }
}

/// Splits a string on a separator character, keeping empty pieces.
pub fn split_str(s: &str, sep: char) -> (r: Vec<String>)
    ensures
        r.deep_view() == split_on(s@, sep),
{
    let cs = to_chars(s);
    let n: usize = cs.len();
    let mut pieces: Vec<Vec<char>> = Vec::new();
    pieces.push(Vec::new());
    proof {
        assert(pieces.deep_view() =~~= split_on(s@.skip(n as int), sep));
    }
    let mut i: usize = n;
    while i > 0
        invariant
            i <= n,
            n == s@.len(),
            cs@ == s@,
            pieces.deep_view() == split_on(s@.skip(i as int), sep),
            pieces.len() >= 1,
        decreases i,
    {
        i = i - 1;
        let c = cs[i];
        proof {
            assert(s@.skip(i as int).drop_first() =~= s@.skip(i + 1 as int));
            assert(s@.skip(i as int)[0] == s@[i as int]);
            lemma_split_on_len(s@.skip(i + 1 as int), sep);
        }
        if c == sep {
            pieces.insert(0, Vec::new());
            proof {
                assert(pieces.deep_view() =~~= split_on(s@.skip(i as int), sep));
            }
        } else {
            let mut first = pieces.remove(0);
            first.insert(0, c);
            pieces.insert(0, first);
            proof {
                assert(pieces.deep_view() =~~= split_on(s@.skip(i as int), sep));
            }
        }
    }
    proof {
        assert(s@.skip(0) =~= s@);
    }
    let mut out: Vec<String> = Vec::new();
    let mut j: usize = 0;
    let pn: usize = pieces.len();
    while j < pn
        invariant
            j <= pn,
            pn == pieces.len(),
            pieces.deep_view() == split_on(s@, sep),
            out.deep_view() == pieces.deep_view().take(j as int),
        decreases pn - j,
    {
        let piece = chars_to_string(&pieces[j]);
        out.push(piece);
        proof {
            assert(pieces.deep_view().take(j + 1 as int) =~= pieces.deep_view().take(
                j as int,
            ).push(pieces.deep_view()[j as int]));
            assert(out.deep_view() =~~= pieces.deep_view().take(j + 1 as int));
        }
        j = j + 1;
    }
    proof {
        assert(pieces.deep_view().take(pn as int) =~= pieces.deep_view());
    }
    out
}

/// The suffix after the last occurrence of a character: the whole
/// sequence when the character never occurs.
pub open spec fn after_last(s: Seq<char>, c: char) -> Seq<char>
    decreases s.len(),
{
    if s.len() == 0 {
        s
    } else if s.last() == c {
        Seq::empty()
    } else {
        after_last(s.drop_last(), c).push(s.last())
    }
}

pub proof fn lemma_after_last_found(s: Seq<char>, c: char, d: int)
    requires
        0 <= d < s.len(),
        s[d] == c,
        forall|j: int| d < j < s.len() ==> s[j] != c,
    ensures
        after_last(s, c) == s.skip(d + 1),
    decreases s.len(),
{
    if d == s.len() - 1 {
        assert(s.last() == c);
        assert(s.skip(d + 1) =~= Seq::<char>::empty());
    } else {
        assert(s.last() != c);
        assert(s.drop_last()[d] == c);
        lemma_after_last_found(s.drop_last(), c, d);
        assert(s.drop_last().skip(d + 1).push(s.last()) =~= s.skip(d + 1));
    }
}

pub proof fn lemma_after_last_none(s: Seq<char>, c: char)
    requires
        forall|j: int| 0 <= j < s.len() ==> s[j] != c,
    ensures
        after_last(s, c) == s,
    decreases s.len(),
{
    if s.len() > 0 {
        lemma_after_last_none(s.drop_last(), c);
        assert(s.drop_last().push(s.last()) =~= s);
    }
}

/// The suffix of a string after the last occurrence of a character.
pub fn suffix_after_last(s: &str, c: char) -> (r: String)
    ensures
        r@ == after_last(s@, c),
{
    let n: usize = s.unicode_len();
    let mut i: usize = n;
    while i > 0
        invariant
            i <= n,
            n == s@.len(),
            forall|j: int| i <= j < n ==> s@[j] != c,
        decreases i,
    {
        if s.get_char(i - 1) == c {
            let r = s.substring_char(i, n).to_owned();
            proof {
                lemma_after_last_found(s@, c, i - 1 as int);
            }
            return r;
        }
        i = i - 1;
    }
    proof {
        lemma_after_last_none(s@, c);
        assert(s@.subrange(0, n as int) =~= s@);
    }
    s.substring_char(0, n).to_owned()
}

/// Joining a sequence of pieces with a separator character between them.
pub open spec fn join_with(ts: Seq<Seq<char>>, sep: char) -> Seq<char>
    decreases ts.len(),
{
    if ts.len() == 0 {
        Seq::<char>::empty()
    } else if ts.len() == 1 {
        ts[0]
    } else {
        ts[0] + seq![sep] + join_with(ts.drop_first(), sep)
    }
}

pub proof fn lemma_join_with_push(ts: Seq<Seq<char>>, t: Seq<char>, sep: char)
    ensures
        join_with(ts.push(t), sep) == if ts.len() == 0 {
            t
        } else {
            join_with(ts, sep) + seq![sep] + t
        },
    decreases ts.len(),
{
    let p = ts.push(t);
    if ts.len() == 0 {
        assert(p.len() == 1);
        assert(join_with(p, sep) == p[0]);
    } else {
        assert(p[0] == ts[0]);
        assert(p.drop_first() =~= ts.drop_first().push(t));
        lemma_join_with_push(ts.drop_first(), t, sep);
        if ts.len() == 1 {
            assert(ts.drop_first().len() == 0);
            assert(join_with(p, sep) == ts[0] + seq![sep] + t);
            assert(join_with(ts, sep) == ts[0]);
        } else {
            assert(join_with(p, sep) == ts[0] + seq![sep] + (join_with(ts.drop_first(), sep)
                + seq![sep] + t));
            assert(join_with(ts, sep) + seq![sep] + t =~= ts[0] + seq![sep] + (join_with(
                ts.drop_first(),
                sep,
            ) + seq![sep] + t));
        }
    }
}

/// Appends the pieces joined with the separator to a character vector.
pub fn push_joined(out: &mut Vec<char>, pieces: &Vec<String>, sep: char)
    ensures
        final(out)@ == old(out)@ + join_with(pieces.deep_view(), sep),
{
    let n: usize = pieces.len();
    let mut i: usize = 0;
    while i < n
        invariant
            i <= n,
            n == pieces.len(),
            out@ == old(out)@ + join_with(pieces.deep_view().take(i as int), sep),
        decreases n - i,
    {
        if i > 0 {
            out.push(sep);
        }
        push_str_chars(out, pieces[i].as_str());
        proof {
            let pv = pieces.deep_view();
            assert(pv.take(i + 1 as int) =~= pv.take(i as int).push(pv[i as int]));
            lemma_join_with_push(pv.take(i as int), pv[i as int], sep);
            assert(out@ =~= old(out)@ + join_with(pv.take(i + 1 as int), sep));
        }
        i = i + 1;
    }
    proof {
        assert(pieces.deep_view().take(n as int) =~= pieces.deep_view());
    }
}

} // verus!
