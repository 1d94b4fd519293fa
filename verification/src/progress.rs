//! The progress decoder: pure and stateless per line. Given one line of
//! subprocess text, find the rightmost `%`, scan backward over ASCII
//! digits and dots, and read the captured token as a decimal percentage.
//! Percentages are carried as thousandths of a percent, saturated at
//! `PROGRESS_CAP_MILLI`; downstream the store clamps them to 100%.

use vstd::prelude::*;

verus! {

/// Upper bound on a decoded value: one thousand percent, far above the
/// 100% clamp applied when the value reaches the queue store.
pub const PROGRESS_CAP_MILLI: u64 = 1000000;

/// A character the backward scan accepts: an ASCII digit or a dot.
pub open spec fn is_digit_or_dot(c: char) -> bool {
    ('0' <= c && c <= '9') || c == '.'
}

/// Decides `is_digit_or_dot` executably.
pub fn digit_or_dot_char(c: char) -> (r: bool)
    ensures
        r == is_digit_or_dot(c),
{
    ('0' <= c && c <= '9') || c == '.'
}

/// The numeric value of an ASCII digit; other characters count as zero.
pub open spec fn digit_val(c: char) -> nat {
    if '0' <= c && c <= '9' {
        (c as u32 - 48) as nat
    } else {
        0
    }
}

/// The value of a digit string read left to right in base ten.
pub open spec fn dval(s: Seq<char>) -> nat
    decreases s.len(),
{
    if s.len() == 0 {
        0
    } else {
        dval(s.drop_last()) * 10 + digit_val(s.last())
    }
}

/// The index of the rightmost `%`, or -1 if the line has none.
pub open spec fn last_percent(s: Seq<char>) -> int
    decreases s.len(),
{
    if s.len() == 0 {
        -1
    } else if s.last() == '%' {
        s.len() - 1
    } else {
        last_percent(s.drop_last())
    }
}

/// The start of the digit-and-dot run that ends just before index `k`.
pub open spec fn scan_back(s: Seq<char>, k: int) -> int
    decreases k,
{
    if k <= 0 || k > s.len() {
        0
    } else if is_digit_or_dot(s[k - 1]) {
        scan_back(s, k - 1)
    } else {
        k
    }
}

/// How many dots a token holds.
pub open spec fn dot_count(s: Seq<char>) -> nat
    decreases s.len(),
{
    if s.len() == 0 {
        0
    } else {
        dot_count(s.drop_last()) + if s.last() == '.' {
            1nat
        } else {
            0nat
        }
    }
}

/// Whether the token holds at least one ASCII digit.
pub open spec fn has_digit(s: Seq<char>) -> bool {
    exists|i: int| 0 <= i < s.len() && '0' <= #[trigger] s[i] && s[i] <= '9'
}

/// The index of the first dot, or the length if there is none.
pub open spec fn first_dot(s: Seq<char>) -> int
    decreases s.len(),
{
    if s.len() == 0 {
        0
    } else if s[0] == '.' {
        0
    } else {
        1 + first_dot(s.drop_first())
    }
}

/// The fractional digits of a token, padded with zeros to exactly three
/// places (thousandths of a percent).
pub open spec fn frac3(t: Seq<char>) -> Seq<char> {
    let d = first_dot(t);
    let frac = if d < t.len() {
        t.subrange(d + 1, t.len() as int)
    } else {
        Seq::empty()
    };
    (frac + seq!['0', '0', '0']).take(3)
}

/// Saturation of a value at the progress cap.
pub open spec fn sat_milli(v: nat) -> u64 {
    if v > PROGRESS_CAP_MILLI {
        PROGRESS_CAP_MILLI
    } else {
        v as u64
    }
}

/// The token's value in thousandths of a percent, saturated at the cap.
pub open spec fn token_milli(t: Seq<char>) -> u64 {
    sat_milli(dval(t.subrange(0, first_dot(t)) + frac3(t)))
}

/// A token parses as a decimal number exactly when it has at least one
/// digit and at most one dot.
pub open spec fn token_parses(t: Seq<char>) -> bool {
    has_digit(t) && dot_count(t) <= 1
}

/// What the decoder returns for a whole line: the token before the
/// rightmost `%`, if it parses; nothing for a line without `%` or with
/// an unparsable token.
pub open spec fn decoded_progress(line: Seq<char>) -> Option<u64> {
    let p = last_percent(line);
    if p < 0 {
        None
    } else {
        let t = line.subrange(scan_back(line, p), p);
        if token_parses(t) {
            Some(token_milli(t))
        } else {
            None
        }
    }
}

proof fn lemma_last_percent_props(s: Seq<char>)
    ensures
        -1 <= last_percent(s) < s.len(),
        last_percent(s) == -1 ==> forall|l: int| 0 <= l < s.len() ==> #[trigger] s[l] != '%',
        last_percent(s) >= 0 ==> last_percent(s) < s.len() && s[last_percent(s)] == '%' && (forall|
            l: int,
        | last_percent(s) < l < s.len() ==> #[trigger] s[l] != '%'),
    decreases s.len(),
{
    if s.len() > 0 && s.last() != '%' {
        lemma_last_percent_props(s.drop_last());
        assert(forall|l: int| 0 <= l < s.len() - 1 ==> s[l] == s.drop_last()[l]);
    }
}

/// `dval` of one more digit appends that digit in base ten.
proof fn lemma_dval_push(s: Seq<char>, c: char)
    ensures
        dval(s.push(c)) == dval(s) * 10 + digit_val(c),
{
    assert(s.push(c).drop_last() =~= s);
    assert(s.push(c).last() == c);
}

/// Saturation commutes with one base-ten step.
proof fn lemma_sat_step(v: nat, d: nat)
    requires
        d <= 9,
    ensures
        sat_milli(v) < PROGRESS_CAP_MILLI ==> sat_milli(v) == v && sat_milli(v * 10 + d)
            == sat_milli((sat_milli(v) * 10 + d) as nat),
        sat_milli(v) == PROGRESS_CAP_MILLI ==> sat_milli(v * 10 + d) == PROGRESS_CAP_MILLI,
{
    if v >= PROGRESS_CAP_MILLI {
        assert(v * 10 + d >= v) by (nonlinear_arith)
            requires
                v >= 0,
        ;
    }
}

proof fn lemma_first_dot_none(s: Seq<char>)
    requires
        forall|l: int| 0 <= l < s.len() ==> s[l] != '.',
    ensures
        first_dot(s) == s.len(),
    decreases s.len(),
{
    if s.len() > 0 {
        assert(forall|l: int|
            0 <= l < s.drop_first().len() ==> #[trigger] s.drop_first()[l] == s[l + 1]);
        lemma_first_dot_none(s.drop_first());
    }
}

proof fn lemma_first_dot_at(s: Seq<char>, d: int)
    requires
        0 <= d < s.len(),
        forall|l: int| 0 <= l < d ==> s[l] != '.',
        s[d] == '.',
    ensures
        first_dot(s) == d,
    decreases s.len(),
{
    if d > 0 {
        assert(forall|l: int|
            0 <= l < s.drop_first().len() ==> #[trigger] s.drop_first()[l] == s[l + 1]);
        lemma_first_dot_at(s.drop_first(), d - 1);
    }
}

proof fn lemma_first_dot_bounds(s: Seq<char>)
    ensures
        0 <= first_dot(s) <= s.len(),
    decreases s.len(),
{
    if s.len() > 0 && s[0] != '.' {
        lemma_first_dot_bounds(s.drop_first());
    }
}

proof fn lemma_frac3_index(t: Seq<char>, fp: int)
    requires
        0 <= fp < 3,
        0 <= first_dot(t) <= t.len(),
    ensures
        frac3(t).len() == 3,
        first_dot(t) + 1 + fp < t.len() ==> frac3(t)[fp] == t[first_dot(t) + 1 + fp],
        first_dot(t) + 1 + fp >= t.len() ==> frac3(t)[fp] == '0',
{
    let d = first_dot(t);
    let frac = if d < t.len() {
        t.subrange(d + 1, t.len() as int)
    } else {
        Seq::<char>::empty()
    };
    assert(seq!['0', '0', '0'].len() == 3);
    if fp < frac.len() {
        assert((frac + seq!['0', '0', '0'])[fp] == frac[fp]);
    } else {
        assert((frac + seq!['0', '0', '0'])[fp] == seq!['0', '0', '0'][fp - frac.len()]);
        assert(seq!['0', '0', '0'][fp - frac.len()] == '0');
    }
}

/// One saturating base-ten step.
fn sat_mul10_add(acc: u64, d: u64) -> (r: u64)
    requires
        acc <= PROGRESS_CAP_MILLI,
        d <= 9,
    ensures
        r <= PROGRESS_CAP_MILLI,
        acc < PROGRESS_CAP_MILLI ==> r == sat_milli((acc * 10 + d) as nat),
        acc == PROGRESS_CAP_MILLI ==> r == PROGRESS_CAP_MILLI,
{
    if acc >= PROGRESS_CAP_MILLI {
        PROGRESS_CAP_MILLI
    } else {
        let grown = acc * 10 + d;
        if grown > PROGRESS_CAP_MILLI {
            PROGRESS_CAP_MILLI
        } else {
            grown
        }
    }
}

/// Decodes one line of tool output; pure and stateless. Returns the
/// percentage (in thousandths of a percent) written immediately before
/// the rightmost `%`, or nothing when the line carries none.
pub fn decode_progress_line(line: &str) -> (r: Option<u64>)
    ensures
        r == decoded_progress(line@),
{
    let len = line.unicode_len();
    // Find the rightmost '%'.
    let mut k: usize = len;
    let mut pct: usize = 0;
    let mut found = false;
    while k > 0 && !found
        invariant
            len == line@.len(),
            0 <= k <= len,
            !found ==> forall|l: int| k <= l < len ==> line@[l] != '%',
            found ==> k < len && line@[k as int] == '%' && pct == k && forall|l: int|
                k < l < len ==> line@[l] != '%',
        decreases k,
    {
        if line.get_char(k - 1) == '%' {
            pct = k - 1;
            found = true;
        }
        k = k - 1;
    }
    if !found {
        proof {
            lemma_last_percent_props(line@);
            if last_percent(line@) >= 0 {
                assert(line@[last_percent(line@)] != '%');
            }
        }
        return None;
    }
    proof {
        lemma_last_percent_props(line@);
        if last_percent(line@) > pct as int {
            assert(line@[last_percent(line@)] != '%');
        }
        if last_percent(line@) < pct as int {
            assert(line@[pct as int] != '%');
        }
        assert(last_percent(line@) == pct as int);
    }
    // Scan backward over digits and dots.
    let mut j: usize = pct;
    while j > 0 && digit_or_dot_char(line.get_char(j - 1))
        invariant
            len == line@.len(),
            pct < len,
            0 <= j <= pct,
            scan_back(line@, pct as int) == scan_back(line@, j as int),
        decreases j,
    {
        j = j - 1;
    }
    proof {
        assert(scan_back(line@, j as int) == j as int);
        assert(scan_back(line@, pct as int) == j as int);
    }
    let ghost t = line@.subrange(j as int, pct as int);
    // Walk the token: find the first dot, count dots, notice digits.
    let mut dots: usize = 0;
    let mut digit_seen = false;
    let mut dot_at: usize = pct - j;
    let mut m: usize = j;
    while m < pct
        invariant
            len == line@.len(),
            0 <= j <= m <= pct < len,
            t == line@.subrange(j as int, pct as int),
            dots <= m - j,
            dots == dot_count(t.subrange(0, m - j)),
            digit_seen ==> has_digit(t.subrange(0, m - j)),
            dots == 0 ==> dot_at == pct - j && (forall|l: int| 0 <= l < m - j ==> t[l] != '.'),
            dots > 0 ==> dot_at < m - j && first_dot(t) == dot_at as int,
            !digit_seen ==> forall|l: int|
                0 <= l < m - j ==> !('0' <= #[trigger] t[l] && t[l] <= '9'),
        decreases pct - m,
    {
        let c = line.get_char(m);
        proof {
            assert(t[(m - j) as int] == line@[m as int]);
            assert(t.subrange(0, m + 1 - j) =~= t.subrange(0, m - j).push(t[(m - j) as int]));
            assert(t.subrange(0, m + 1 - j).drop_last() =~= t.subrange(0, m - j));
            assert(forall|l: int|
                0 <= l < m - j ==> #[trigger] t.subrange(0, m + 1 - j)[l] == t.subrange(
                    0,
                    m - j,
                )[l]);
            assert(t.subrange(0, m + 1 - j)[(m - j) as int] == t[(m - j) as int]);
        }
        if c == '.' {
            if dots == 0 {
                dot_at = m - j;
                proof {
                    lemma_first_dot_at(t, (m - j) as int);
                }
            }
            dots = dots + 1;
        } else if '0' <= c && c <= '9' {
            digit_seen = true;
        }
        m = m + 1;
    }
    proof {
        assert(t.subrange(0, pct - j) =~= t);
        if !digit_seen {
            assert(!has_digit(t));
        }
    }
    if !digit_seen || dots > 1 {
        return None;
    }
    proof {
        if dots == 0 {
            lemma_first_dot_none(t);
        }
        assert(first_dot(t) == dot_at as int);
        lemma_first_dot_bounds(t);
    }
    // Accumulate: integer digits, then exactly three fractional places.
    let ghost intpart = t.subrange(0, dot_at as int);
    let mut acc: u64 = 0;
    let mut p: usize = j;
    proof {
        assert(intpart.subrange(0, 0) =~= Seq::<char>::empty());
    }
    while p < j + dot_at
        invariant
            len == line@.len(),
            0 <= j <= p,
            j <= p <= j + dot_at,
            j + dot_at <= pct < len,
            t == line@.subrange(j as int, pct as int),
            intpart == t.subrange(0, dot_at as int),
            dot_at <= pct - j,
            acc <= PROGRESS_CAP_MILLI,
            acc == sat_milli(dval(intpart.subrange(0, p - j))),
        decreases j + dot_at - p,
    {
        let c = line.get_char(p);
        proof {
            assert(intpart[(p - j) as int] == t[(p - j) as int]);
            assert(t[(p - j) as int] == line@[p as int]);
            assert(intpart.subrange(0, p + 1 - j) =~= intpart.subrange(0, p - j).push(
                intpart[(p - j) as int],
            ));
            lemma_dval_push(intpart.subrange(0, p - j), intpart[(p - j) as int]);
            lemma_sat_step(dval(intpart.subrange(0, p - j)), digit_val(intpart[(p - j) as int]));
        }
        let d: u64 = if '0' <= c && c <= '9' {
            (c as u64) - 48
        } else {
            0
        };
        acc = sat_mul10_add(acc, d);
        p = p + 1;
    }
    proof {
        assert(intpart.subrange(0, dot_at as int) =~= intpart);
        assert((intpart + frac3(t).take(0)) =~= intpart);
    }
    // Three fractional places, padded with zeros.
    let base = j + dot_at;
    let mut fp: usize = 0;
    while fp < 3
        invariant
            len == line@.len(),
            0 <= fp <= 3,
            0 <= j,
            j <= j + dot_at,
            base == j + dot_at,
            j + dot_at <= pct < len,
            t == line@.subrange(j as int, pct as int),
            intpart == t.subrange(0, dot_at as int),
            first_dot(t) == dot_at as int,
            acc <= PROGRESS_CAP_MILLI,
            acc == sat_milli(dval(intpart + frac3(t).take(fp as int))),
        decreases 3 - fp,
    {
        let off = 1 + fp;
        let c = if off < pct - base {
            line.get_char(base + off)
        } else {
            '0'
        };
        proof {
            lemma_frac3_index(t, fp as int);
            if off < pct - base {
                assert(t[(dot_at + 1 + fp) as int] == line@[(base + off) as int]);
                assert(frac3(t)[fp as int] == t[first_dot(t) + 1 + fp]);
            } else {
                assert(first_dot(t) + 1 + fp >= t.len());
                assert(frac3(t)[fp as int] == '0');
            }
            assert(c == frac3(t)[fp as int]);
            assert((intpart + frac3(t).take(fp + 1)) =~= (intpart + frac3(t).take(
                fp as int,
            )).push(frac3(t)[fp as int]));
            lemma_dval_push(intpart + frac3(t).take(fp as int), frac3(t)[fp as int]);
            lemma_sat_step(
                dval(intpart + frac3(t).take(fp as int)),
                digit_val(frac3(t)[fp as int]),
            );
        }
        let d: u64 = if '0' <= c && c <= '9' {
            (c as u64) - 48
        } else {
            0
        };
        acc = sat_mul10_add(acc, d);
        fp = fp + 1;
    }
    proof {
        lemma_frac3_index(t, 0);
        assert(frac3(t).take(3) =~= frac3(t));
        assert(intpart + frac3(t) == t.subrange(0, first_dot(t)) + frac3(t));
        assert(acc == token_milli(t));
        assert(token_parses(t));
    }
    Some(acc)
}

} // verus!
