//! Byte-string helpers shared by the log model: whitespace trimming,
//! prefix tests, substring search and decimal parsing / formatting.

use vstd::prelude::*;

verus! {

/// ASCII whitespace, as it occurs in compiler output.
pub open spec fn is_ws(b: u8) -> bool {
    b == 32 || b == 9 || b == 10 || b == 13
}

/// Number of leading whitespace bytes of `s`.
pub open spec fn ws_prefix_len(s: Seq<u8>) -> int
    decreases s.len(),
{
    if s.len() > 0 && is_ws(s[0]) {
        1 + ws_prefix_len(s.drop_first())
    } else {
        0
    }
}

/// Number of trailing whitespace bytes of `s`.
pub open spec fn ws_suffix_len(s: Seq<u8>) -> int
    decreases s.len(),
{
    if s.len() > 0 && is_ws(s.last()) {
        1 + ws_suffix_len(s.drop_last())
    } else {
        0
    }
}

/// `s` with leading and trailing ASCII whitespace removed.
pub open spec fn trim_spec(s: Seq<u8>) -> Seq<u8> {
    if ws_prefix_len(s) == s.len() {
        Seq::empty()
    } else {
        s.subrange(ws_prefix_len(s), s.len() - ws_suffix_len(s))
    }
}

/// A prefix of whitespace bytes that ends on a non-whitespace byte (or at the
/// end of `s`) is exactly the whitespace prefix of `s`.
pub proof fn lemma_ws_prefix_char(s: Seq<u8>, n: int)
    requires
        0 <= n <= s.len(),
        forall|i: int| 0 <= i < n ==> is_ws(s[i]),
        n < s.len() ==> !is_ws(s[n]),
    ensures
        ws_prefix_len(s) == n,
    decreases s.len(),
{
    if s.len() > 0 && is_ws(s[0]) {
        assert forall|i: int| 0 <= i < n - 1 implies is_ws(s.drop_first()[i]) by {
            assert(s.drop_first()[i] == s[i + 1]);
        }
        assert(n - 1 < s.drop_first().len() ==> s.drop_first()[n - 1] == s[n]);
        lemma_ws_prefix_char(s.drop_first(), n - 1);
    }
}

pub proof fn lemma_ws_suffix_char(s: Seq<u8>, n: int)
    requires
        0 <= n <= s.len(),
        forall|i: int| s.len() - n <= i < s.len() ==> is_ws(s[i]),
        n < s.len() ==> !is_ws(s[s.len() - n - 1]),
    ensures
        ws_suffix_len(s) == n,
    decreases s.len(),
{
    if s.len() > 0 && is_ws(s.last()) {
        assert forall|i: int| s.drop_last().len() - (n - 1) <= i < s.drop_last().len()
            implies is_ws(s.drop_last()[i]) by {
            assert(s.drop_last()[i] == s[i]);
        }
        if n - 1 < s.drop_last().len() {
            assert(s.drop_last()[s.drop_last().len() - (n - 1) - 1] == s[s.len() - n - 1]);
        }
        lemma_ws_suffix_char(s.drop_last(), n - 1);
    }
}

/// Copy of `s` with leading and trailing ASCII whitespace removed.
pub fn trim(s: &Vec<u8>) -> (r: Vec<u8>)
    ensures
        r@ == trim_spec(s@),
{
    let n = s.len();
    let mut lo: usize = 0;
    while lo < n && (s[lo] == 32 || s[lo] == 9 || s[lo] == 10 || s[lo] == 13)
        invariant
            0 <= lo <= n == s@.len(),
            forall|i: int| 0 <= i < lo ==> is_ws(s@[i]),
        decreases n - lo,
    {
        lo = lo + 1;
    }
    proof {
        lemma_ws_prefix_char(s@, lo as int);
    }
    if lo == n {
        let r: Vec<u8> = Vec::new();
        assert(r@ =~= trim_spec(s@));
        return r;
    }
    let mut hi: usize = n;
    while hi > lo && (s[hi - 1] == 32 || s[hi - 1] == 9 || s[hi - 1] == 10 || s[hi - 1] == 13)
        invariant
            lo <= hi <= n == s@.len(),
            lo < n,
            !is_ws(s@[lo as int]),
            forall|i: int| hi <= i < n ==> is_ws(s@[i]),
        decreases hi,
    {
        hi = hi - 1;
    }
    proof {
        lemma_ws_suffix_char(s@, n - hi);
        assert(hi > lo);
    }
    let mut r: Vec<u8> = Vec::new();
    let mut i: usize = lo;
    while i < hi
        invariant
            lo <= i <= hi <= s@.len(),
            r@ == s@.subrange(lo as int, i as int),
        decreases hi - i,
    {
        r.push(s[i]);
        assert(r@ =~= s@.subrange(lo as int, i + 1 as int));
        i = i + 1;
    }
    assert(r@ =~= trim_spec(s@));
    r
}

/// True when `p` is a prefix of `s`.
pub open spec fn starts_with_spec(s: Seq<u8>, p: Seq<u8>) -> bool {
    p.len() <= s.len() && s.subrange(0, p.len() as int) == p
}

pub fn starts_with(s: &Vec<u8>, p: &Vec<u8>) -> (r: bool)
    ensures
        r == starts_with_spec(s@, p@),
{
    if p.len() > s.len() {
        assert(!starts_with_spec(s@, p@));
        return false;
    }
    let mut i: usize = 0;
    while i < p.len()
        invariant
            0 <= i <= p@.len() <= s@.len(),
            forall|j: int| 0 <= j < i ==> s@[j] == p@[j],
        decreases p@.len() - i,
    {
        if s[i] != p[i] {
            assert(s@.subrange(0, p@.len() as int)[i as int] != p@[i as int]);
            return false;
        }
        i = i + 1;
    }
    assert(s@.subrange(0, p@.len() as int) =~= p@);
    true
}

/// True when `q` occurs in `s` at position `i`.
pub open spec fn match_at(s: Seq<u8>, q: Seq<u8>, i: int) -> bool {
    0 <= i && i + q.len() <= s.len() && s.subrange(i, i + q.len()) == q
}

/// Byte position of the first occurrence of `q` in `s`, if any.
pub fn find_sub(s: &Vec<u8>, q: &Vec<u8>) -> (r: Option<usize>)
    ensures
        match r {
            Some(i) => match_at(s@, q@, i as int) && forall|j: int|
                0 <= j < i ==> !match_at(s@, q@, j),
            None => forall|j: int| !match_at(s@, q@, j),
        },
{
    if q.len() > s.len() {
        return None;
    }
    let last = s.len() - q.len();
    let mut i: usize = 0;
    let mut found = false;
    loop
        invariant_except_break
            !found,
        invariant
            0 <= i <= last,
            last == s@.len() - q@.len(),
            q@.len() <= s@.len(),
            s@.len() <= usize::MAX,
            forall|j: int| 0 <= j < i ==> !match_at(s@, q@, j),
        ensures
            found ==> match_at(s@, q@, i as int) && forall|j: int|
                0 <= j < i ==> !match_at(s@, q@, j),
            !found ==> forall|j: int| !match_at(s@, q@, j),
        decreases last - i,
    {
        let mut k: usize = 0;
        let mut hit = true;
        while k < q.len()
            invariant_except_break
                hit,
            invariant
                0 <= k <= q@.len(),
                i <= last,
                last == s@.len() - q@.len(),
                s@.len() <= usize::MAX,
                forall|j: int| 0 <= j < k ==> s@[i + j] == q@[j],
            ensures
                hit ==> forall|j: int| 0 <= j < q@.len() ==> s@[i + j] == q@[j],
                !hit ==> k < q@.len() && s@[i + k] != q@[k as int],
            decreases q@.len() - k,
        {
            if s[i + k] != q[k] {
                hit = false;
                break;
            }
            k = k + 1;
        }
        if hit {
            assert(s@.subrange(i as int, i + q@.len()) =~= q@);
            found = true;
            break;
        }
        assert(!match_at(s@, q@, i as int)) by {
            if s@.subrange(i as int, i + q@.len()) == q@ {
                assert(s@.subrange(i as int, i + q@.len())[k as int] == q@[k as int]);
            }
        }
        if i == last {
            assert forall|j: int| !match_at(s@, q@, j) by {
                if 0 <= j && j + q@.len() <= s@.len() {
                    assert(j <= last);
                }
            }
            break;
        }
        i = i + 1;
    }
    if found {
        Some(i)
    } else {
        None
    }
}

pub open spec fn is_digit(b: u8) -> bool {
    48 <= b <= 57
}

pub open spec fn all_digits(s: Seq<u8>) -> bool {
    forall|i: int| 0 <= i < s.len() ==> is_digit(s[i])
}

/// Value of a digit string, most significant digit first.
pub open spec fn digits_val(s: Seq<u8>) -> int
    decreases s.len(),
{
    if s.len() == 0 {
        0
    } else {
        10 * digits_val(s.drop_last()) + (s.last() - 48)
    }
}

/// What parsing a decimal `usize` yields: the numeric value when `s` is a
/// non-empty digit string whose value fits, nothing otherwise.
pub open spec fn parse_usize_spec(s: Seq<u8>) -> Option<usize> {
    if s.len() > 0 && all_digits(s) && digits_val(s) <= usize::MAX {
        Some(digits_val(s) as usize)
    } else {
        None
    }
}

pub proof fn lemma_digits_val_take(s: Seq<u8>, i: int)
    requires
        0 <= i < s.len(),
    ensures
        digits_val(s.take(i + 1)) == 10 * digits_val(s.take(i)) + (s[i] - 48),
{
    assert(s.take(i + 1).drop_last() =~= s.take(i));
    assert(s.take(i + 1).last() == s[i]);
}

/// The value of a digit string is not negative.
pub proof fn lemma_digits_val_nonneg(s: Seq<u8>)
    requires
        all_digits(s),
    ensures
        digits_val(s) >= 0,
    decreases s.len(),
{
    if s.len() > 0 {
        assert(all_digits(s.drop_last()));
        lemma_digits_val_nonneg(s.drop_last());
    }
}

/// Appending digits can only grow the value.
pub proof fn lemma_digits_val_grows(s: Seq<u8>, i: int)
    requires
        0 <= i <= s.len(),
        all_digits(s),
    ensures
        digits_val(s.take(i)) <= digits_val(s),
    decreases s.len() - i,
{
    if i < s.len() {
        lemma_digits_val_take(s, i);
        assert(all_digits(s.take(i)));
        lemma_digits_val_nonneg(s.take(i));
        assert(digits_val(s.take(i)) <= digits_val(s.take(i + 1)));
        lemma_digits_val_grows(s, i + 1);
    } else {
        assert(s.take(i) =~= s);
    }
}

/// Parse a decimal `usize`; fails on an empty string, a non-digit byte or
/// overflow.
pub fn parse_usize(s: &Vec<u8>) -> (r: Option<usize>)
    ensures
        r == parse_usize_spec(s@),
{
    if s.len() == 0 {
        return None;
    }
    let mut acc: usize = 0;
    let mut i: usize = 0;
    while i < s.len()
        invariant
            0 <= i <= s@.len(),
            forall|j: int| 0 <= j < i ==> is_digit(s@[j]),
            acc == digits_val(s@.take(i as int)),
        decreases s@.len() - i,
    {
        let b = s[i];
        if b < 48 || b > 57 {
            assert(!all_digits(s@));
            return None;
        }
        let d = (b - 48) as usize;
        let wide: u128 = (acc as u128) * 10 + (d as u128);
        proof {
            lemma_digits_val_take(s@, i as int);
        }
        if wide > usize::MAX as u128 {
            proof {
                if all_digits(s@) {
                    lemma_digits_val_grows(s@, i + 1 as int);
                    assert(digits_val(s@) >= 10 * acc + d > usize::MAX);
                }
            }
            return None;
        }
        acc = wide as usize;
        i = i + 1;
    }
    proof {
        assert(s@.take(i as int) =~= s@);
    }
    Some(acc)
}

/// Decimal digits of `n`, most significant first.
pub open spec fn dec_digits(n: int) -> Seq<u8>
    decreases n,
{
    if n <= 0 {
        Seq::empty()
    } else {
        dec_digits(n / 10).push((n % 10 + 48) as u8)
    }
}

/// The decimal rendering of `n`: its digits, or "0".
pub open spec fn fmt_usize_spec(n: int) -> Seq<u8> {
    if n == 0 {
        seq![48u8]
    } else {
        dec_digits(n)
    }
}

/// Render `n` in decimal.
pub fn fmt_usize(n: usize) -> (r: Vec<u8>)
    ensures
        r@ == fmt_usize_spec(n as int),
{
    if n == 0 {
        let mut r: Vec<u8> = Vec::new();
        r.push(48);
        assert(r@ =~= fmt_usize_spec(0));
        return r;
    }
    let mut rev: Vec<u8> = Vec::new();
    let mut m: usize = n;
    while m > 0
        invariant
            0 <= m <= n,
            dec_digits(n as int) =~= dec_digits(m as int) + rev@.reverse(),
        decreases m,
    {
        let d = (m % 10) as u8 + 48;
        proof {
            assert(dec_digits(m as int) == dec_digits(m as int / 10).push(d));
            assert((rev@.push(d)).reverse() =~= seq![d] + rev@.reverse());
            assert(dec_digits(m as int / 10) + (rev@.push(d)).reverse() =~= dec_digits(m as int)
                + rev@.reverse());
        }
        rev.push(d);
        m = m / 10;
    }
    let mut r: Vec<u8> = Vec::new();
    let mut i: usize = rev.len();
    while i > 0
        invariant
            0 <= i <= rev@.len(),
            r@ =~= rev@.reverse().take(rev@.len() - i),
        decreases i,
    {
        i = i - 1;
        let d = rev[i];
        proof {
            assert(rev@.reverse()[rev@.len() - i - 1] == rev@[i as int]);
            assert(rev@.reverse().take(rev@.len() - i) =~= rev@.reverse().take(rev@.len() - i
                - 1).push(d));
        }
        r.push(d);
    }
    proof {
        assert(rev@.reverse().take(rev@.len() as int) =~= rev@.reverse());
        assert(r@ =~= dec_digits(n as int));
    }
    r
}

/// ASCII lower-casing of one byte.
pub open spec fn lower_byte(b: u8) -> u8 {
    if 65 <= b <= 90 {
        (b + 32) as u8
    } else {
        b
    }
}

/// Case-insensitive equality of ASCII byte strings.
pub open spec fn eq_ignore_case_spec(a: Seq<u8>, b: Seq<u8>) -> bool {
    a.len() == b.len() && forall|i: int| 0 <= i < a.len() ==> lower_byte(a[i]) == lower_byte(b[i])
}

pub fn eq_ignore_case(a: &Vec<u8>, b: &Vec<u8>) -> (r: bool)
    ensures
        r == eq_ignore_case_spec(a@, b@),
{
    if a.len() != b.len() {
        return false;
    }
    let mut i: usize = 0;
    while i < a.len()
        invariant
            0 <= i <= a@.len() == b@.len(),
            forall|j: int| 0 <= j < i ==> lower_byte(a@[j]) == lower_byte(b@[j]),
        decreases a@.len() - i,
    {
        let mut x = a[i];
        let mut y = b[i];
        if 65 <= x && x <= 90 {
            x = x + 32;
        }
        if 65 <= y && y <= 90 {
            y = y + 32;
        }
        if x != y {
            return false;
        }
        i = i + 1;
    }
    true
}

/// ASCII lower-casing of a byte string.
pub open spec fn lower_seq(s: Seq<u8>) -> Seq<u8> {
    Seq::new(s.len(), |i: int| lower_byte(s[i]))
}

/// Whether the ASCII lower-casing of `a` is exactly `b`.
pub fn lower_eq(a: &Vec<u8>, b: &Vec<u8>) -> (r: bool)
    ensures
        r == (lower_seq(a@) == b@),
{
    if a.len() != b.len() {
        assert(lower_seq(a@).len() != b@.len());
        return false;
    }
    let mut i: usize = 0;
    while i < a.len()
        invariant
            0 <= i <= a@.len() == b@.len(),
            forall|j: int| 0 <= j < i ==> lower_byte(a@[j]) == b@[j],
        decreases a@.len() - i,
    {
        let mut x = a[i];
        if 65 <= x && x <= 90 {
            x = x + 32;
        }
        if x != b[i] {
            assert(lower_seq(a@)[i as int] != b@[i as int]);
            return false;
        }
        i = i + 1;
    }
    assert(lower_seq(a@) =~= b@);
    true
}

/// A lower-cased copy of an ASCII byte string.
pub fn to_lower(s: &Vec<u8>) -> (r: Vec<u8>)
    ensures
        r@ == lower_seq(s@),
{
    let mut r: Vec<u8> = Vec::new();
    let n = s.len();
    let mut i: usize = 0;
    while i < n
        invariant
            0 <= i <= n == s@.len(),
            r@.len() == i,
            forall|j: int| 0 <= j < i ==> r@[j] == lower_byte(s@[j]),
        decreases n - i,
    {
        let mut x = s[i];
        if 65 <= x && x <= 90 {
            x = x + 32;
        }
        r.push(x);
        i = i + 1;
    }
    proof {
        assert(r@ =~= lower_seq(s@));
    }
    r
}

/// Byte position of the first occurrence of `b` in `s` at or after `from`,
/// or the length of `s` when there is none.
pub open spec fn idx_of_spec(s: Seq<u8>, b: u8, from: int) -> int
    decreases s.len() - from,
{
    if from < 0 || from >= s.len() {
        s.len() as int
    } else if s[from] == b {
        from
    } else {
        idx_of_spec(s, b, from + 1)
    }
}

pub proof fn lemma_idx_of(s: Seq<u8>, b: u8, from: int)
    requires
        0 <= from <= s.len(),
    ensures
        from <= idx_of_spec(s, b, from) <= s.len(),
        idx_of_spec(s, b, from) < s.len() ==> s[idx_of_spec(s, b, from)] == b,
        forall|j: int| from <= j < idx_of_spec(s, b, from) ==> s[j] != b,
    decreases s.len() - from,
{
    if from < s.len() && s[from] != b {
        lemma_idx_of(s, b, from + 1);
    }
}

pub fn idx_of(s: &Vec<u8>, b: u8, from: usize) -> (r: usize)
    requires
        from <= s@.len(),
    ensures
        r == idx_of_spec(s@, b, from as int),
{
    let mut i: usize = from;
    while i < s.len()
        invariant
            from <= i <= s@.len(),
            forall|j: int| from <= j < i ==> s@[j] != b,
            idx_of_spec(s@, b, from as int) == idx_of_spec(s@, b, i as int),
        decreases s@.len() - i,
    {
        if s[i] == b {
            return i;
        }
        i = i + 1;
    }
    i
}

/// Copy of `s[lo..hi]`.
pub fn subvec(s: &Vec<u8>, lo: usize, hi: usize) -> (r: Vec<u8>)
    requires
        lo <= hi <= s@.len(),
    ensures
        r@ == s@.subrange(lo as int, hi as int),
{
    let mut r: Vec<u8> = Vec::new();
    let mut i: usize = lo;
    while i < hi
        invariant
            lo <= i <= hi <= s@.len(),
            r@ == s@.subrange(lo as int, i as int),
        decreases hi - i,
    {
        r.push(s[i]);
        assert(r@ =~= s@.subrange(lo as int, i + 1 as int));
        i = i + 1;
    }
    r
}

/// The bytes of an ASCII character sequence, character by character.
pub open spec fn lit_bytes(s: Seq<char>) -> Seq<u8> {
    Seq::new(s.len(), |i: int| s[i] as u8)
}

/// The UTF-8 bytes of a string slice; for ASCII text this is the character
/// sequence itself, byte for byte.
pub fn byte_lit(s: &str) -> (r: Vec<u8>)
    ensures
        r@ == vstd::string::StringSliceAdditionalSpecFns::spec_bytes(s),
        vstd::string::is_ascii(s) ==> r@ == lit_bytes(s@),
{
    proof {
        broadcast use vstd::string::is_ascii_spec_bytes;

    }
    vstd::slice::slice_to_vec(s.as_bytes())
}

/// The bytes of the location-line prefix `-->`.
pub open spec fn arrow_prefix() -> Seq<u8> {
    seq![45u8, 45u8, 62u8]
}

/// The location-line prefix `-->` as a vector.
pub fn arrow_prefix_vec() -> (r: Vec<u8>)
    ensures
        r@ == arrow_prefix(),
{
    let mut r: Vec<u8> = Vec::new();
    r.push(45);
    r.push(45);
    r.push(62);
    proof {
        assert(r@ =~= arrow_prefix());
    }
    r
}

/// A copy of a byte vector.
pub fn clone_bytes(s: &Vec<u8>) -> (r: Vec<u8>)
    ensures
        r@ == s@,
{
    let r = subvec(s, 0, s.len());
    proof {
        assert(r@ =~= s@);
    }
    r
}

/// `s` with every NUL byte removed.
pub open spec fn strip_nul_spec(s: Seq<u8>) -> Seq<u8>
    decreases s.len(),
{
    if s.len() == 0 {
        Seq::empty()
    } else {
        strip_nul_spec(s.drop_last()) + if s.last() != 0 {
            seq![s.last()]
        } else {
            Seq::<u8>::empty()
        }
    }
}

/// Copy of `s` with every NUL byte removed, as the input scanner applies
/// it to raw lines before they become entries.
pub fn strip_nul(s: &Vec<u8>) -> (r: Vec<u8>)
    ensures
        r@ == strip_nul_spec(s@),
{
    let mut r: Vec<u8> = Vec::new();
    let n = s.len();
    let mut i: usize = 0;
    while i < n
        invariant
            0 <= i <= n == s@.len(),
            r@ == strip_nul_spec(s@.take(i as int)),
        decreases n - i,
    {
        proof {
            assert(s@.take(i + 1).drop_last() =~= s@.take(i as int));
            assert(s@.take(i + 1).last() == s@[i as int]);
        }
        let ghost before = r@;
        if s[i] != 0 {
            r.push(s[i]);
            proof {
                assert(r@ =~= before + seq![s@[i as int]]);
            }
        }
        i = i + 1;
    }
    proof {
        assert(s@.take(n as int) =~= s@);
    }
    r
}

/// A vector of `n` spaces.
pub fn spaces(n: usize) -> (r: Vec<u8>)
    ensures
        r@ == Seq::new(n as nat, |i: int| 32u8),
{
    let mut r: Vec<u8> = Vec::new();
    let mut i: usize = 0;
    while i < n
        invariant
            0 <= i <= n,
            r@ == Seq::new(i as nat, |j: int| 32u8),
        decreases n - i,
    {
        r.push(32);
        assert(r@ =~= Seq::new((i + 1) as nat, |j: int| 32u8));
        i = i + 1;
    }
    r
}

} // verus!
