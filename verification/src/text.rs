//! Character and string utilities the reconciliation logic depends on:
//! ASCII case folding for hash normalization, decimal parsing for ledger
//! numbers carried as strings, decimal rendering for alert messages, and
//! substring search for classifying RPC error messages.

use vstd::prelude::*;

verus! {

/// ASCII lowercase folding of a single character; characters outside
/// `'A'..='Z'` are unchanged.
pub open spec fn lower_char(c: char) -> char {
    if 65 <= c as u32 && c as u32 <= 90 {
        (((c as u8) + 32) as u8) as char
    } else {
        c
    }
}

/// ASCII lowercase folding of a character sequence.
pub open spec fn lower_chars(s: Seq<char>) -> Seq<char> {
    s.map_values(|c: char| lower_char(c))
}

/// Folding a single character twice changes nothing more than folding once.
pub proof fn lemma_lower_char_idempotent(c: char)
    ensures
        lower_char(lower_char(c)) == lower_char(c),
{
    if 65 <= c as u32 && c as u32 <= 90 {
        let r = lower_char(c);
        assert(97 <= r as u32 <= 122);
    }
}

/// Folding is idempotent: a second pass changes nothing.
pub proof fn lemma_lower_chars_idempotent(s: Seq<char>)
    ensures
        lower_chars(lower_chars(s)) == lower_chars(s),
{
    assert forall|i: int| 0 <= i < s.len() implies lower_chars(lower_chars(s))[i] == lower_chars(
        s,
    )[i] by {
        lemma_lower_char_idempotent(s[i]);
    }
    assert(lower_chars(lower_chars(s)) =~= lower_chars(s));
}

/// Relies on `String::push`: appends exactly the given character.
#[verifier::external_body]
pub fn push_char(s: &mut String, c: char)
    ensures
        final(s)@ == old(s)@.push(c),
{
    s.push(c);
}

/// ASCII lowercase folding of a string.
pub fn to_lower_ascii(s: &str) -> (r: String)
    ensures
        r@ == lower_chars(s@),
{
    let n = s.unicode_len();
    let mut r = String::new();
    assert(r@ =~= lower_chars(s@.subrange(0, 0)));
    for i in 0..n
        invariant
            n == s@.len(),
            r@ == lower_chars(s@.subrange(0, i as int)),
    {
        let c = s.get_char(i);
        let u = c as u32;
        let lc = if 65 <= u && u <= 90 {
            ((c as u8) + 32) as char
        } else {
            c
        };
        assert(lc == lower_char(c));
        push_char(&mut r, lc);
        assert(r@ =~= lower_chars(s@.subrange(0, i + 1)));
    }
    assert(s@.subrange(0, n as int) =~= s@);
    r
}

/// Whether `c` is an ASCII decimal digit.
pub open spec fn is_dec_digit(c: char) -> bool {
    48 <= c as u32 <= 57
}

/// Whether `s` is a non-empty run of ASCII decimal digits.
pub open spec fn all_dec_digits(s: Seq<char>) -> bool {
    forall|i: int| 0 <= i < s.len() ==> is_dec_digit(#[trigger] s[i])
}

/// The number denoted by a digit sequence, most significant digit first.
pub open spec fn dec_value(s: Seq<char>) -> int
    decreases s.len(),
{
    if s.len() == 0 {
        0
    } else {
        dec_value(s.drop_last()) * 10 + (s.last() as u32 - 48)
    }
}

/// Parses a non-negative decimal integer, the exact grammar being a
/// non-empty run of ASCII digits whose value fits in a `u64`.
pub fn parse_u64(s: &str) -> (r: Option<u64>)
    ensures
        r is Some <==> s@.len() > 0 && all_dec_digits(s@) && dec_value(s@) <= u64::MAX,
        r matches Some(v) ==> v == dec_value(s@),
{
    let n = s.unicode_len();
    if n == 0 {
        return None;
    }
    let mut acc: u64 = 0;
    for i in 0..n
        invariant
            n == s@.len(),
            all_dec_digits(s@.subrange(0, i as int)),
            dec_value(s@.subrange(0, i as int)) <= u64::MAX,
            acc == dec_value(s@.subrange(0, i as int)),
    {
        let c = s.get_char(i);
        let u = c as u32;
        if u < 48 || u > 57 {
            assert(!is_dec_digit(s@[i as int]));
            return None;
        }
        let d = (u - 48) as u64;
        proof {
            vstd::arithmetic::div_mod::lemma_fundamental_div_mod(u64::MAX - d, 10);
            assert(s@.subrange(0, i + 1).drop_last() =~= s@.subrange(0, i as int));
            assert(s@.subrange(0, i + 1).last() == s@[i as int]);
        }
        if acc > (u64::MAX - d) / 10 {
            proof {
                assert(dec_value(s@.subrange(0, i + 1)) > u64::MAX);
                lemma_dec_value_prefix_monotonic(s@, i + 1);
            }
            return None;
        }
        acc = acc * 10 + d;
    }
    assert(s@.subrange(0, n as int) =~= s@);
    Some(acc)
}

/// If a prefix of `s` already denotes more than `u64::MAX`, so does every
/// longer prefix, in particular `s` itself.
proof fn lemma_dec_value_prefix_monotonic(s: Seq<char>, i: int)
    requires
        0 <= i <= s.len(),
        dec_value(s.subrange(0, i)) > u64::MAX,
    ensures
        dec_value(s) > u64::MAX,
    decreases s.len() - i,
{
    if i == s.len() {
        assert(s.subrange(0, i) =~= s);
    } else {
        assert(s.subrange(0, i + 1).drop_last() =~= s.subrange(0, i));
        assert(dec_value(s.subrange(0, i + 1)) == dec_value(s.subrange(0, i)) * 10 + (s.subrange(
            0,
            i + 1,
        ).last() as u32 - 48));
        lemma_dec_value_prefix_monotonic(s, i + 1);
    }
}

/// The canonical decimal rendering of `n`: no leading zeros, except that
/// zero itself renders as a single `'0'`.
pub open spec fn dec_chars(n: nat) -> Seq<char>
    decreases n,
{
    if n < 10 {
        seq![((48 + n) as u8) as char]
    } else {
        dec_chars(n / 10).push(((48 + n % 10) as u8) as char)
    }
}

/// Renders `n` in decimal.
pub fn u64_to_dec(n: u64) -> (r: String)
    ensures
        r@ == dec_chars(n as nat),
{
    let mut digits: Vec<char> = Vec::new();
    let mut m: u64 = n;
    assert(dec_chars(n as nat) =~= dec_chars(n as nat) + digits@);
    loop
        invariant_except_break
            dec_chars(n as nat) == dec_chars(m as nat) + digits@,
        ensures
            digits@ == dec_chars(n as nat),
        decreases m,
    {
        let d = ((48 + (m % 10) as u32) as u8) as char;
        let rest = m / 10;
        proof {
            if rest == 0 {
                assert(dec_chars(m as nat) =~= seq![d]);
            } else {
                assert(dec_chars(m as nat) =~= dec_chars(rest as nat) + seq![d]);
            }
            assert(dec_chars(rest as nat) + (seq![d] + digits@) =~= (dec_chars(rest as nat)
                + seq![d]) + digits@);
        }
        let mut tail: Vec<char> = Vec::new();
        tail.push(d);
        tail.append(&mut digits);
        digits = tail;
        if rest == 0 {
            assert(digits@ =~= dec_chars(n as nat));
            break;
        }
        m = rest;
    }
    let mut r = String::new();
    assert(digits@ == dec_chars(n as nat));
    assert(r@ =~= digits@.subrange(0, 0));
    for i in 0..digits.len()
        invariant
            digits@ == dec_chars(n as nat),
            r@ == digits@.subrange(0, i as int),
    {
        push_char(&mut r, digits[i]);
        assert(r@ =~= digits@.subrange(0, i + 1));
    }
    assert(digits@.subrange(0, digits@.len() as int) =~= digits@);
    r
}

/// Character-wise string equality.
pub fn str_eq(a: &str, b: &str) -> (r: bool)
    ensures
        r == (a@ == b@),
{
    let n = a.unicode_len();
    let m = b.unicode_len();
    if n != m {
        return false;
    }
    let mut i: usize = 0;
    while i < n
        invariant
            n == a@.len(),
            n == b@.len(),
            i <= n,
            forall|k: int| 0 <= k < i ==> a@[k] == b@[k],
        decreases n - i,
    {
        if a.get_char(i) != b.get_char(i) {
            assert(a@[i as int] != b@[i as int]);
            return false;
        }
        assert(a@[i as int] == b@[i as int]);
        i = i + 1;
    }
    proof {
        assert(a@ =~= b@);
    }
    true
}

/// Whether `p` is a prefix of `s`.
pub open spec fn is_prefix_of(p: Seq<char>, s: Seq<char>) -> bool {
    p.len() <= s.len() && s.subrange(0, p.len() as int) == p
}

/// Prefix test, used by the hash-prefix search.
pub fn has_prefix(s: &str, p: &str) -> (r: bool)
    ensures
        r == is_prefix_of(p@, s@),
{
    let n = s.unicode_len();
    let m = p.unicode_len();
    if m > n {
        return false;
    }
    let mut i: usize = 0;
    while i < m
        invariant
            n == s@.len(),
            m == p@.len(),
            m <= n,
            i <= m,
            forall|k: int| 0 <= k < i ==> s@[k] == p@[k],
        decreases m - i,
    {
        if s.get_char(i) != p.get_char(i) {
            assert(s@[i as int] != p@[i as int]);
            assert(!is_prefix_of(p@, s@)) by {
                if s@.subrange(0, p@.len() as int) == p@ {
                    assert(s@.subrange(0, p@.len() as int)[i as int] == s@[i as int]);
                }
            }
            return false;
        }
        assert(s@[i as int] == p@[i as int]);
        i = i + 1;
    }
    proof {
        assert(s@.subrange(0, p@.len() as int) =~= p@);
    }
    true
}

/// Whether `pat` occurs in `s` starting at position `i`.
pub open spec fn occurs_at(s: Seq<char>, pat: Seq<char>, i: int) -> bool {
    0 <= i && i + pat.len() <= s.len() && s.subrange(i, i + pat.len() as int) == pat
}

/// Whether `pat` occurs anywhere in `s`.
pub open spec fn contains_seq(s: Seq<char>, pat: Seq<char>) -> bool {
    exists|i: int| occurs_at(s, pat, i)
}

/// Substring search, used to classify RPC error messages.
pub fn contains_sub(s: &str, pat: &str) -> (r: bool)
    ensures
        r == contains_seq(s@, pat@),
{
    let n = s.unicode_len();
    let m = pat.unicode_len();
    if m > n {
        assert(forall|i: int| !occurs_at(s@, pat@, i));
        return false;
    }
    let mut i: usize = 0;
    while i <= n - m
        invariant
            n == s@.len(),
            m == pat@.len(),
            m <= n,
            i <= n - m + 1,
            forall|k: int| 0 <= k < i ==> !occurs_at(s@, pat@, k),
        decreases n - m - i + 1,
    {
        let mut j: usize = 0;
        let mut ok: bool = true;
        while j < m
            invariant
                n == s@.len(),
                m == pat@.len(),
                i + m <= n,
                j <= m,
                ok <==> (forall|t: int| 0 <= t < j ==> s@[i + t] == pat@[t]),
            decreases m - j,
        {
            if s.get_char(i + j) != pat.get_char(j) {
                ok = false;
                assert(s@[i + j] != pat@[j as int]);
                j = m;
            } else {
                assert(s@[i + j] == pat@[j as int]);
                j = j + 1;
            }
        }
        if ok {
            assert(s@.subrange(i as int, i + pat@.len() as int) =~= pat@);
            assert(occurs_at(s@, pat@, i as int));
            return true;
        } else {
            assert(!occurs_at(s@, pat@, i as int)) by {
                if s@.subrange(i as int, i + pat@.len() as int) == pat@ {
                    assert(forall|t: int|
                        0 <= t < pat@.len() ==> #[trigger] s@.subrange(
                            i as int,
                            i + pat@.len() as int,
                        )[t] == s@[i + t]);
                }
            }
        }
        i = i + 1;
    }
    assert(forall|k: int| !occurs_at(s@, pat@, k));
    false
}

} // verus!
