//! Verified character-level string helpers: equality, case-insensitive
//! comparison and search, prefix tests, and trimming.

use vstd::prelude::*;

verus! {

/// The lower-cased code point of a character, folding only ASCII letters.
pub open spec fn lower32(c: char) -> u32 {
    if 'A' <= c && c <= 'Z' {
        (c as u32 + 32) as u32
    } else {
        c as u32
    }
}

/// Two character sequences are equal up to ASCII case.
pub open spec fn ci_eq(a: Seq<char>, b: Seq<char>) -> bool {
    a.len() == b.len() && forall|i: int| 0 <= i < a.len() ==> lower32(a[i]) == lower32(b[i])
}

/// `needle` occurs contiguously in `hay`, up to ASCII case.
pub open spec fn ci_contains(hay: Seq<char>, needle: Seq<char>) -> bool {
    exists|i: int|
        0 <= i && i + needle.len() <= hay.len() && ci_eq(
            #[trigger] hay.subrange(i, i + needle.len()),
            needle,
        )
}

/// A character this library treats as whitespace when trimming.
pub open spec fn is_space(c: char) -> bool {
    c == ' ' || c == '\t' || c == '\r' || c == '\n'
}

/// Exact string equality, decided character by character.
pub fn str_eq(a: &str, b: &str) -> (r: bool)
    ensures
        r == (a@ == b@),
{
    let alen = a.unicode_len();
    let blen = b.unicode_len();
    if alen != blen {
        return false;
    }
    let mut i: usize = 0;
    while i < alen
        invariant
            alen == a@.len(),
            blen == b@.len(),
            alen == blen,
            0 <= i <= alen,
            forall|j: int| 0 <= j < i ==> a@[j] == b@[j],
        decreases alen - i,
    {
        if a.get_char(i) != b.get_char(i) {
            return false;
        }
        i = i + 1;
    }
    proof {
        assert(a@ =~= b@);
    }
    true
}

/// Equality up to ASCII case, decided character by character.
pub fn str_eq_ci(a: &str, b: &str) -> (r: bool)
    ensures
        r == ci_eq(a@, b@),
{
    let alen = a.unicode_len();
    let blen = b.unicode_len();
    if alen != blen {
        return false;
    }
    let mut i: usize = 0;
    while i < alen
        invariant
            alen == a@.len(),
            blen == b@.len(),
            alen == blen,
            0 <= i <= alen,
            forall|j: int| 0 <= j < i ==> lower32(a@[j]) == lower32(b@[j]),
        decreases alen - i,
    {
        let ca = a.get_char(i);
        let cb = b.get_char(i);
        let la: u32 = if 'A' <= ca && ca <= 'Z' {
            ca as u32 + 32
        } else {
            ca as u32
        };
        let lb: u32 = if 'A' <= cb && cb <= 'Z' {
            cb as u32 + 32
        } else {
            cb as u32
        };
        if la != lb {
            return false;
        }
        i = i + 1;
    }
    true
}

/// Whether `needle` occurs in `hay`, up to ASCII case.
pub fn str_contains_ci(hay: &str, needle: &str) -> (r: bool)
    ensures
        r == ci_contains(hay@, needle@),
{
    let hlen = hay.unicode_len();
    let nlen = needle.unicode_len();
    if nlen > hlen {
        return false;
    }
    let mut i: usize = 0;
    while i <= hlen - nlen
        invariant
            hlen == hay@.len(),
            nlen == needle@.len(),
            nlen <= hlen,
            0 <= i <= hlen - nlen + 1,
            forall|s: int|
                0 <= s < i ==> !ci_eq(#[trigger] hay@.subrange(s, s + needle@.len()), needle@),
        decreases hlen - nlen + 1 - i,
    {
        let mut k: usize = 0;
        let mut all_eq: bool = true;
        while k < nlen && all_eq
            invariant
                hlen == hay@.len(),
                nlen == needle@.len(),
                0 <= i <= hlen - nlen,
                0 <= k <= nlen,
                all_eq ==> forall|j: int|
                    0 <= j < k ==> lower32(hay@[i + j]) == lower32(needle@[j]),
                !all_eq ==> exists|j: int|
                    0 <= j < nlen && lower32(hay@[i + j]) != lower32(needle@[j]),
            decreases nlen - k,
        {
            let ch = hay.get_char(i + k);
            let cn = needle.get_char(k);
            let lh: u32 = if 'A' <= ch && ch <= 'Z' {
                ch as u32 + 32
            } else {
                ch as u32
            };
            let ln: u32 = if 'A' <= cn && cn <= 'Z' {
                cn as u32 + 32
            } else {
                cn as u32
            };
            if lh != ln {
                all_eq = false;
                proof {
                    assert(lower32(hay@[i + k]) != lower32(needle@[k as int]));
                }
                k = nlen;
            } else {
                k = k + 1;
            }
        }
        if all_eq {
            proof {
                let sub = hay@.subrange(i as int, i + needle@.len());
                assert(forall|j: int| 0 <= j < needle@.len() ==> sub[j] == hay@[i + j]);
                assert(ci_eq(sub, needle@));
            }
            return true;
        }
        proof {
            let sub = hay@.subrange(i as int, i + needle@.len());
            assert(forall|j: int| 0 <= j < needle@.len() ==> sub[j] == hay@[i + j]);
            assert(!ci_eq(sub, needle@));
        }
        i = i + 1;
    }
    false
}

/// Whether `s` begins with `prefix`, exactly.
pub fn starts_with_str(s: &str, prefix: &str) -> (r: bool)
    ensures
        r == (s@.len() >= prefix@.len() && s@.subrange(0, prefix@.len() as int) == prefix@),
{
    let slen = s.unicode_len();
    let plen = prefix.unicode_len();
    if plen > slen {
        return false;
    }
    let mut i: usize = 0;
    while i < plen
        invariant
            slen == s@.len(),
            plen == prefix@.len(),
            plen <= slen,
            0 <= i <= plen,
            forall|j: int| 0 <= j < i ==> s@[j] == prefix@[j],
        decreases plen - i,
    {
        if s.get_char(i) != prefix.get_char(i) {
            proof {
                let sub = s@.subrange(0, prefix@.len() as int);
                assert(sub[i as int] == s@[i as int]);
            }
            return false;
        }
        i = i + 1;
    }
    proof {
        assert(s@.subrange(0, prefix@.len() as int) =~= prefix@);
    }
    true
}

/// The first index at or after `from` that does not satisfy `is_space`,
/// or the length of the sequence if all of the rest is whitespace.
pub open spec fn skip_spaces_from(s: Seq<char>, from: int) -> int
    decreases s.len() - from,
{
    if from < 0 || from >= s.len() {
        s.len() as int
    } else if is_space(s[from]) {
        skip_spaces_from(s, from + 1)
    } else {
        from
    }
}

/// The index one past the last non-whitespace character strictly before
/// `upto`, or 0 if there is none.
pub open spec fn rskip_spaces_upto(s: Seq<char>, upto: int) -> int
    decreases upto,
{
    if upto <= 0 || upto > s.len() {
        0
    } else if is_space(s[upto - 1]) {
        rskip_spaces_upto(s, upto - 1)
    } else {
        upto
    }
}

/// The trimmed form of a character sequence: leading and trailing
/// whitespace removed.
pub open spec fn trimmed(s: Seq<char>) -> Seq<char> {
    let lo = skip_spaces_from(s, 0);
    let hi = rskip_spaces_upto(s, s.len() as int);
    if lo <= hi {
        s.subrange(lo, hi)
    } else {
        Seq::empty()
    }
}

/// Decides `is_space` executably.
pub fn space_char(c: char) -> (r: bool)
    ensures
        r == is_space(c),
{
    c == ' ' || c == '\t' || c == '\r' || c == '\n'
}

/// Removes leading and trailing whitespace.
pub fn trim(s: &str) -> (r: &str)
    ensures
        r@ == trimmed(s@),
{
    let len = s.unicode_len();
    let mut lo: usize = 0;
    while lo < len && space_char(s.get_char(lo))
        invariant
            len == s@.len(),
            0 <= lo <= len,
            skip_spaces_from(s@, 0) == skip_spaces_from(s@, lo as int),
            forall|j: int| 0 <= j < lo ==> is_space(s@[j]),
        decreases len - lo,
    {
        lo = lo + 1;
    }
    proof {
        assert(skip_spaces_from(s@, lo as int) == lo as int);
    }
    let mut hi: usize = len;
    while hi > lo && space_char(s.get_char(hi - 1))
        invariant
            len == s@.len(),
            lo == skip_spaces_from(s@, 0),
            lo <= hi <= len,
            rskip_spaces_upto(s@, len as int) == rskip_spaces_upto(s@, hi as int),
        decreases hi,
    {
        hi = hi - 1;
    }
    proof {
        if hi > lo {
            assert(rskip_spaces_upto(s@, hi as int) == hi as int);
        } else {
            lemma_rskip_spaces_at_skip(s@, lo as int, hi as int);
        }
    }
    s.substring_char(lo, hi)
}

/// Filtering a sequence extended by one element keeps the element exactly
/// when the predicate accepts it.
pub proof fn lemma_filter_push<A>(s: Seq<A>, x: A, p: spec_fn(A) -> bool)
    ensures
        s.push(x).filter(p) == if p(x) {
            s.filter(p).push(x)
        } else {
            s.filter(p)
        },
{
    reveal(Seq::filter);
    assert(s.push(x).drop_last() =~= s);
    assert(s.push(x).last() == x);
}

proof fn lemma_skip_bounds(s: Seq<char>, from: int)
    requires
        0 <= from <= s.len(),
    ensures
        from <= skip_spaces_from(s, from) <= s.len(),
    decreases s.len() - from,
{
    if from < s.len() && is_space(s[from]) {
        lemma_skip_bounds(s, from + 1);
    }
}

proof fn lemma_rskip_spaces_at_skip(s: Seq<char>, lo: int, hi: int)
    requires
        lo == skip_spaces_from(s, 0),
        0 <= hi <= lo,
        rskip_spaces_upto(s, s.len() as int) == rskip_spaces_upto(s, hi),
        forall|j: int| 0 <= j < lo ==> is_space(s[j]),
    ensures
        rskip_spaces_upto(s, s.len() as int) <= lo,
        s.subrange(lo, lo) == trimmed(s),
        trimmed(s) == Seq::<char>::empty(),
    decreases hi,
{
    lemma_skip_bounds(s, 0);
    if hi > 0 {
        assert(is_space(s[hi - 1]));
        lemma_rskip_spaces_at_skip(s, lo, hi - 1);
    } else {
        assert(rskip_spaces_upto(s, 0) == 0);
        assert(trimmed(s) =~= Seq::<char>::empty());
        assert(s.subrange(lo, lo) =~= Seq::<char>::empty());
    }
}

} // verus!
