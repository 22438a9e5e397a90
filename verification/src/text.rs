//! Character-level text operations with their meaning stated over `Seq<char>`.
use vstd::prelude::*;

verus! {

/// `s` begins with `p`.
pub open spec fn has_prefix(s: Seq<char>, p: Seq<char>) -> bool {
    p.len() <= s.len() && s.subrange(0, p.len() as int) == p
}

/// `s` ends with `p`.
pub open spec fn has_suffix(s: Seq<char>, p: Seq<char>) -> bool {
    p.len() <= s.len() && s.subrange(s.len() - p.len(), s.len() as int) == p
}

/// `s` with every leading repetition of `p` removed; an empty `p` removes nothing.
pub open spec fn strip_leading(s: Seq<char>, p: Seq<char>) -> Seq<char>
    decreases s.len(),
{
    if p.len() > 0 && has_prefix(s, p) {
        strip_leading(s.subrange(p.len() as int, s.len() as int), p)
    } else {
        s
    }
}

/// Appends one character to a string.
#[verifier::external_body]
pub(crate) fn push_char(s: &mut String, c: char)
    ensures
        final(s)@ == old(s)@.push(c),
{
    s.push(c);
}

/// Whether the characters of `s` from position `k` on begin with `p`.
pub fn matches_at(s: &str, k: usize, p: &str) -> (res: bool)
    requires
        k <= s@.len(),
    ensures
        res == has_prefix(s@.subrange(k as int, s@.len() as int), p@),
{
    let n = s.unicode_len();
    let m = p.unicode_len();
    if m > n - k {
        return false;
    }
    let ghost rest = s@.subrange(k as int, s@.len() as int);
    let mut t: usize = 0;
    while t < m
        invariant
            n == s@.len(),
            m == p@.len(),
            k + m <= n,
            t <= m,
            rest == s@.subrange(k as int, s@.len() as int),
            forall|u: int| 0 <= u < t ==> rest[u] == p@[u],
        decreases m - t,
    {
        if s.get_char(k + t) != p.get_char(t) {
            assert(rest.subrange(0, m as int)[t as int] != p@[t as int]);
            return false;
        }
        t = t + 1;
    }
    assert(rest.subrange(0, m as int) =~= p@);
    true
}

/// Whether `s` begins with `p`.
pub fn starts_with(s: &str, p: &str) -> (res: bool)
    ensures
        res == has_prefix(s@, p@),
{
    assert(s@.subrange(0, s@.len() as int) =~= s@);
    matches_at(s, 0, p)
}

/// Whether `s` ends with `p`.
pub fn ends_with(s: &str, p: &str) -> (res: bool)
    ensures
        res == has_suffix(s@, p@),
{
    let n = s.unicode_len();
    let m = p.unicode_len();
    if m > n {
        return false;
    }
    let r = matches_at(s, n - m, p);
    assert(s@.subrange((n - m) as int, n as int).subrange(0, m as int)
        =~= s@.subrange((n - m) as int, n as int));
    r
}

/// `s` with every leading repetition of `p` removed.
pub fn trim_start_matches(s: &str, p: &str) -> (res: String)
    ensures
        res@ == strip_leading(s@, p@),
{
    let n = s.unicode_len();
    let m = p.unicode_len();
    if m == 0 {
        return String::from_str(s);
    }
    let mut k: usize = 0;
    assert(s@.subrange(0, n as int) =~= s@);
    loop
        invariant
            n == s@.len(),
            m == p@.len(),
            m > 0,
            k <= n,
            strip_leading(s@, p@) == strip_leading(s@.subrange(k as int, n as int), p@),
        ensures
            k <= n,
            strip_leading(s@, p@) == strip_leading(s@.subrange(k as int, n as int), p@),
            !has_prefix(s@.subrange(k as int, n as int), p@),
        decreases n - k,
    {
        if !matches_at(s, k, p) {
            break;
        }
        let ghost cur = s@.subrange(k as int, n as int);
        assert(cur.subrange(m as int, cur.len() as int) =~= s@.subrange(k + m, n as int));
        k = k + m;
    }
    let rest = s.substring_char(k, n);
    String::from_str(rest)
}

/// `p` followed by `s`.
pub fn prefixed(p: &str, s: &str) -> (res: String)
    ensures
        res@ == p@ + s@,
{
    let mut r = String::from_str(p);
    r.append(s);
    r
}


/// The character of decimal digit `d`.
pub open spec fn digit_char(d: nat) -> char {
    (48 + d) as char
}

/// The decimal digits of `n`, without leading zeros.
pub open spec fn decimal(n: nat) -> Seq<char>
    decreases n,
{
    if n < 10 {
        seq![digit_char(n)]
    } else {
        decimal(n / 10).push(digit_char(n % 10))
    }
}

/// `k` zeros.
pub open spec fn zeros(k: int) -> Seq<char> {
    Seq::new(if k > 0 { k as nat } else { 0 }, |i: int| '0')
}

/// The decimal digits of `n`, with zeros in front up to `width` characters.
pub open spec fn zero_padded(n: nat, width: nat) -> Seq<char> {
    zeros(width - decimal(n).len()) + decimal(n)
}

/// `v` in decimal, zero-padded to `width` characters after its sign (the `{:0w}` format).
pub open spec fn signed_padded(v: int, width: nat) -> Seq<char> {
    if v < 0 {
        seq!['-'] + zero_padded((-v) as nat, (if width > 0 { width - 1 } else { 0 }) as nat)
    } else {
        zero_padded(v as nat, width)
    }
}

/// The number of decimal digits of `n`.
pub fn decimal_len(n: u64) -> (res: u64)
    ensures
        res == decimal(n as nat).len(),
        1 <= res <= n as nat + 1,
    decreases n,
{
    if n < 10 {
        1
    } else {
        let r = decimal_len(n / 10);
        assert(decimal(n as nat) == decimal((n / 10) as nat).push(digit_char((n % 10) as nat)));
        r + 1
    }
}

/// Appends the decimal digits of `n`.
pub fn push_decimal(s: &mut String, n: u64)
    ensures
        final(s)@ == old(s)@ + decimal(n as nat),
    decreases n,
{
    if n >= 10 {
        push_decimal(s, n / 10);
    }
    let d = (n % 10) as u32;
    let c = char_from_digit(d);
    push_char(s, c);
    assert(final(s)@ =~= old(s)@ + decimal(n as nat));
}

/// The character of a decimal digit.
pub fn char_from_digit(d: u32) -> (c: char)
    requires
        d < 10,
    ensures
        c == digit_char(d as nat),
{
    let b: u8 = 48 + d as u8;
    b as char
}

/// Appends `n` in decimal, zero-padded to `width` characters.
pub fn push_zero_padded(s: &mut String, n: u64, width: usize)
    ensures
        final(s)@ == old(s)@ + zero_padded(n as nat, width as nat),
{
    let len = decimal_len(n);
    let width64 = width as u64;
    let mut k: u64 = len;
    while k < width64
        invariant
            len == decimal(n as nat).len(),
            len <= k,
            width64 == width,
            k <= width64 || k == len,
            s@ == old(s)@ + zeros(k - len),
        decreases width64 - k,
    {
        push_char(s, '0');
        k = k + 1;
        assert(s@ =~= old(s)@ + zeros(k - len));
    }
    push_decimal(s, n);
    assert(zeros(k - len) =~= zeros(width - len));
    assert(s@ =~= old(s)@ + zero_padded(n as nat, width as nat));
}

/// Appends `v` in decimal, zero-padded to `width` characters after its sign.
pub fn push_signed_padded(s: &mut String, v: i64, width: usize)
    ensures
        final(s)@ == old(s)@ + signed_padded(v as int, width as nat),
{
    if v < 0 {
        push_char(s, '-');
        let m: u64 = if v == i64::MIN { 9223372036854775808u64 } else { (-v) as u64 };
        let w = if width > 0 { width - 1 } else { 0 };
        push_zero_padded(s, m, w);
        assert(s@ =~= old(s)@ + signed_padded(v as int, width as nat));
    } else {
        push_zero_padded(s, v as u64, width);
    }
}

/// Whether two texts are the same.
pub fn same_text(a: &str, b: &str) -> (res: bool)
    ensures
        res == (a@ == b@),
{
    let n = a.unicode_len();
    if n != b.unicode_len() {
        return false;
    }
    let mut k: usize = 0;
    while k < n
        invariant
            n == a@.len(),
            n == b@.len(),
            k <= n,
            forall|u: int| 0 <= u < k ==> a@[u] == b@[u],
        decreases n - k,
    {
        if a.get_char(k) != b.get_char(k) {
            return false;
        }
        k = k + 1;
    }
    assert(a@ =~= b@);
    true
}
} // verus!
