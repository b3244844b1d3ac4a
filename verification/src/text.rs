//! Verified helpers on strings: lexicographic order, equality, prefix test
//! and substring search. The rest of the library states its contracts over
//! these spec functions.

use vstd::prelude::*;
use vstd::string::StrSliceExecFns;

verus! {

/// Strict lexicographic order on character sequences, by code point.
pub open spec fn lex_lt(a: Seq<char>, b: Seq<char>) -> bool
    decreases a.len(),
{
    if b.len() == 0 {
        false
    } else if a.len() == 0 {
        true
    } else if (a[0] as u32) < (b[0] as u32) {
        true
    } else if (a[0] as u32) > (b[0] as u32) {
        false
    } else {
        lex_lt(a.drop_first(), b.drop_first())
    }
}

/// The needle `n` occurs in `h` at position `i`.
pub open spec fn contains_at(h: Seq<char>, n: Seq<char>, i: int) -> bool {
    0 <= i && i + n.len() <= h.len() && h.subrange(i, i + n.len()) == n
}

/// The needle `n` occurs somewhere in `h`.
pub open spec fn contains_seq(h: Seq<char>, n: Seq<char>) -> bool {
    exists|i: int| contains_at(h, n, i)
}

/// Two characters are equal exactly when their code points are.
proof fn lemma_char_cast_eq(c1: char, c2: char)
    ensures
        (c1 as u32 == c2 as u32) <==> c1 == c2,
{
    vstd::utf8::char_u32_cast(c1, c1 as u32);
    vstd::utf8::char_u32_cast(c2, c2 as u32);
}

/// Of two distinct sequences, one is lexicographically below the other.
pub proof fn lemma_lex_connected(a: Seq<char>, b: Seq<char>)
    ensures
        a != b ==> lex_lt(a, b) || lex_lt(b, a),
    decreases a.len(),
{
    if a.len() == 0 || b.len() == 0 {
        if a.len() == 0 && b.len() == 0 {
            assert(a =~= b);
        }
    } else if (a[0] as u32) == (b[0] as u32) {
        lemma_char_cast_eq(a[0], b[0]);
        lemma_lex_connected(a.drop_first(), b.drop_first());
        if a.drop_first() == b.drop_first() {
            assert(a =~= Seq::empty().push(a.first()) + a.drop_first());
            assert(b =~= Seq::empty().push(b.first()) + b.drop_first());
        }
    }
}

/// Lexicographic order is irreflexive.
pub proof fn lemma_lex_irreflexive(a: Seq<char>)
    ensures
        !lex_lt(a, a),
    decreases a.len(),
{
    if a.len() != 0 {
        lemma_lex_irreflexive(a.drop_first());
    }
}

/// Lexicographic order is asymmetric.
pub proof fn lemma_lex_asymmetric(a: Seq<char>, b: Seq<char>)
    ensures
        lex_lt(a, b) ==> !lex_lt(b, a),
    decreases a.len() + b.len(),
{
    if a.len() != 0 && b.len() != 0 && (a[0] as u32) == (b[0] as u32) {
        lemma_lex_asymmetric(a.drop_first(), b.drop_first());
    }
}

/// Lexicographic order is transitive.
pub proof fn lemma_lex_transitive(a: Seq<char>, b: Seq<char>, c: Seq<char>)
    ensures
        lex_lt(a, b) && lex_lt(b, c) ==> lex_lt(a, c),
    decreases a.len() + b.len() + c.len(),
{
    if lex_lt(a, b) && lex_lt(b, c) {
        if a.len() != 0 && b.len() != 0 && c.len() != 0 && (a[0] as u32) == (b[0] as u32) && (b[0]
            as u32) == (c[0] as u32) {
            lemma_lex_transitive(a.drop_first(), b.drop_first(), c.drop_first());
        }
    }
}

/// Whether `a` comes strictly before `b` in lexicographic order.
pub fn str_lex_lt(a: &str, b: &str) -> (r: bool)
    ensures
        r == lex_lt(a@, b@),
{
    let alen = a.unicode_len();
    let blen = b.unicode_len();
    proof {
        assert(a@.skip(0) =~= a@);
        assert(b@.skip(0) =~= b@);
    }
    let mut i: usize = 0;
    loop
        invariant
            i <= alen,
            i <= blen,
            alen == a@.len(),
            blen == b@.len(),
            lex_lt(a@, b@) == lex_lt(a@.skip(i as int), b@.skip(i as int)),
        decreases alen - i,
    {
        if i >= blen {
            return false;
        }
        if i >= alen {
            return true;
        }
        let ca = a.get_char(i);
        let cb = b.get_char(i);
        proof {
            assert(a@.skip(i as int)[0] == a@[i as int]);
            assert(b@.skip(i as int)[0] == b@[i as int]);
        }
        if (ca as u32) < (cb as u32) {
            return true;
        }
        if (ca as u32) > (cb as u32) {
            return false;
        }
        proof {
            assert(a@.skip(i as int).drop_first() =~= a@.skip(i + 1));
            assert(b@.skip(i as int).drop_first() =~= b@.skip(i + 1));
        }
        i = i + 1;
    }
}

/// Whether `a` and `b` hold the same characters.
pub fn str_eq(a: &str, b: &str) -> (r: bool)
    ensures
        r == (a@ == b@),
{
    let alen = a.unicode_len();
    let blen = b.unicode_len();
    if alen != blen {
        return false;
    }
    let mut i: usize = 0;
    loop
        invariant
            i <= alen,
            alen == a@.len(),
            alen == b@.len(),
            a@.subrange(0, i as int) == b@.subrange(0, i as int),
        decreases alen - i,
    {
        if i >= alen {
            proof {
                assert(a@.subrange(0, alen as int) =~= a@);
                assert(b@.subrange(0, alen as int) =~= b@);
            }
            return true;
        }
        let ca = a.get_char(i);
        let cb = b.get_char(i);
        if (ca as u32) != (cb as u32) {
            proof {
                lemma_char_cast_eq(ca, cb);
            }
            return false;
        }
        proof {
            lemma_char_cast_eq(ca, cb);
            assert(a@.subrange(0, i + 1) =~= b@.subrange(0, i + 1));
        }
        i = i + 1;
    }
}

/// Whether `s` begins with the prefix `p`.
pub fn str_starts_with(s: &str, p: &str) -> (r: bool)
    ensures
        r == p@.is_prefix_of(s@),
{
    let slen = s.unicode_len();
    let plen = p.unicode_len();
    if plen > slen {
        return false;
    }
    let mut i: usize = 0;
    loop
        invariant
            i <= plen,
            plen == p@.len(),
            slen == s@.len(),
            plen <= slen,
            p@.subrange(0, i as int) == s@.subrange(0, i as int),
        decreases plen - i,
    {
        if i >= plen {
            proof {
                assert(p@.subrange(0, plen as int) =~= p@);
                assert(p@ =~= s@.subrange(0, plen as int));
            }
            return true;
        }
        let cp = p.get_char(i);
        let cs = s.get_char(i);
        if (cp as u32) != (cs as u32) {
            proof {
                lemma_char_cast_eq(cp, cs);
                if p@.is_prefix_of(s@) {
                    assert(p@[i as int] == s@.subrange(0, plen as int)[i as int]);
                }
            }
            return false;
        }
        proof {
            lemma_char_cast_eq(cp, cs);
            assert(p@.subrange(0, i + 1) =~= s@.subrange(0, i + 1));
        }
        i = i + 1;
    }
}

/// Whether `n` occurs in `h` starting at position `i`.
fn matches_at(h: &str, n: &str, i: usize) -> (r: bool)
    requires
        i + n@.len() <= h@.len(),
    ensures
        r == contains_at(h@, n@, i as int),
{
    let hlen = h.unicode_len();
    let nlen = n.unicode_len();
    let mut j: usize = 0;
    loop
        invariant
            j <= nlen,
            nlen == n@.len(),
            hlen == h@.len(),
            i + nlen <= hlen,
            h@.subrange(i as int, i + j) == n@.subrange(0, j as int),
        decreases nlen - j,
    {
        if j >= nlen {
            proof {
                assert(n@.subrange(0, nlen as int) =~= n@);
                assert(h@.subrange(i as int, i + nlen) =~= n@);
            }
            return true;
        }
        let ch = h.get_char(i + j);
        let cn = n.get_char(j);
        if (ch as u32) != (cn as u32) {
            proof {
                lemma_char_cast_eq(ch, cn);
                if contains_at(h@, n@, i as int) {
                    assert(h@.subrange(i as int, i + nlen)[j as int] == n@[j as int]);
                }
            }
            return false;
        }
        proof {
            lemma_char_cast_eq(ch, cn);
            assert(h@.subrange(i as int, i + j + 1) =~= n@.subrange(0, j + 1));
        }
        j = j + 1;
    }
}

/// Whether `n` occurs anywhere in `h`.
pub fn str_contains(h: &str, n: &str) -> (r: bool)
    ensures
        r == contains_seq(h@, n@),
{
    let hlen = h.unicode_len();
    let nlen = n.unicode_len();
    if nlen > hlen {
        proof {
            assert(forall|i: int| !contains_at(h@, n@, i));
        }
        return false;
    }
    if nlen == 0 {
        proof {
            assert(h@.subrange(0, 0) =~= n@);
            assert(contains_at(h@, n@, 0));
        }
        return true;
    }
    let mut i: usize = 0;
    loop
        invariant
            1 <= nlen <= hlen,
            i <= hlen - nlen + 1,
            hlen == h@.len(),
            nlen == n@.len(),
            forall|j: int| 0 <= j < i ==> !contains_at(h@, n@, j),
        decreases hlen - i,
    {
        if i > hlen - nlen {
            proof {
                assert(forall|j: int| i <= j ==> !contains_at(h@, n@, j));
            }
            return false;
        }
        if matches_at(h, n, i) {
            return true;
        }
        i = i + 1;
    }
}

} // verus!
