//! Random numbers, identifiers and tokens.
use vstd::prelude::*;
use crate::text::push_char;

verus! {

/// The largest integer that a JavaScript number holds exactly (`Number.MAX_SAFE_INTEGER`).
pub const MAX_SAFE_ID: i64 = 9007199254740991;

/// Ids must be larger than this to be accepted.
pub const MIN_ID_EXCLUSIVE: i64 = 10000000000;

/// The remainder of `a` by `b` as Rust's `%` computes it: truncated towards zero,
/// with the sign of `a`.
pub open spec fn truncated_rem(a: int, b: int) -> int
    recommends
        b > 0,
{
    if a >= 0 {
        a % b
    } else {
        -((-a) % b)
    }
}

/// The id that `is_valid_id` makes of `id`, or `None` when it refuses it.
pub open spec fn valid_id_of(id: int) -> Option<i64> {
    let r = truncated_rem(id, MAX_SAFE_ID as int);
    if MIN_ID_EXCLUSIVE < r {
        Some(r as i64)
    } else {
        None
    }
}

/// Reduces `id` into the range that JavaScript numbers hold exactly and keeps it
/// only when it has more than ten digits.
pub fn is_valid_id(id: i64) -> (res: Option<i64>)
    ensures
        res == valid_id_of(id as int),
        res matches Some(v) ==> MIN_ID_EXCLUSIVE < v < MAX_SAFE_ID,
{
    let r: i64 = id % MAX_SAFE_ID;
    if MIN_ID_EXCLUSIVE < r {
        Some(r)
    } else {
        None
    }
}


/// An id that `is_valid_id` gives back is kept as it is when checked again.
pub proof fn lemma_valid_id_stable(id: int)
    ensures
        valid_id_of(id) matches Some(v) ==> valid_id_of(v as int) == Some(v),
{
}

/// `getrandom::Error`, the failure of the operating system's random source.
#[verifier::external_type_specification]
#[verifier::external_body]
pub struct ExRandomError(getrandom::Error);

/// Eight bytes from the operating system's random source, by `getrandom::getrandom`.
/// What comes back is chance; nothing is stated of it.
#[verifier::external_body]
fn random_bytes() -> (r: Result<[u8; 8], getrandom::Error>) {
    let mut buf = [0u8; 8];
    getrandom::getrandom(&mut buf)?;
    Ok(buf)
}

/// `256` to the power `k`.
pub open spec fn pow256(k: nat) -> nat
    decreases k,
{
    if k == 0 {
        1
    } else {
        256 * pow256((k - 1) as nat)
    }
}

/// The number that bytes spell in big-endian order.
pub open spec fn big_endian(b: Seq<u8>) -> nat
    decreases b.len(),
{
    if b.len() == 0 {
        0
    } else {
        big_endian(b.drop_last()) * 256 + b.last() as nat
    }
}

/// The two's-complement value of a 64-bit word.
pub open spec fn signed_of_word(u: nat) -> int {
    if u < 0x8000_0000_0000_0000 {
        u as int
    } else {
        u - 0x1_0000_0000_0000_0000
    }
}

proof fn lemma_big_endian_bound(b: Seq<u8>)
    ensures
        big_endian(b) < pow256(b.len()),
    decreases b.len(),
{
    if b.len() > 0 {
        lemma_big_endian_bound(b.drop_last());
        let v = big_endian(b.drop_last());
        let p = pow256(b.drop_last().len());
        let last = b.last();
        assert(v * 256 + last < p * 256) by (nonlinear_arith)
            requires
                v < p,
                last < 256,
        ;
    }
}

/// The unsigned number that eight bytes spell in big-endian order.
pub fn u64_from_be_bytes(b: [u8; 8]) -> (res: u64)
    ensures
        res == big_endian(b@),
{
    let mut acc: u64 = 0;
    let mut k: usize = 0;
    assert(b@.take(0) =~= Seq::<u8>::empty());
    while k < 8
        invariant
            k <= 8,
            b@.len() == 8,
            acc == big_endian(b@.take(k as int)),
        decreases 8 - k,
    {
        proof {
            lemma_big_endian_bound(b@.take(k as int));
            assert(pow256(k as nat) <= pow256(7)) by {
                lemma_pow256_monotone(k as nat, 7);
            }
            assert(pow256(7) == 0x100_0000_0000_0000) by {
                reveal_with_fuel(pow256, 8);
            }
            assert(b@.take(k + 1).drop_last() =~= b@.take(k as int));
        }
        acc = acc * 256 + b[k] as u64;
        k = k + 1;
    }
    assert(b@.take(8) =~= b@);
    acc
}

proof fn lemma_pow256_monotone(a: nat, b: nat)
    requires
        a <= b,
    ensures
        pow256(a) <= pow256(b),
    decreases b,
{
    if a < b {
        lemma_pow256_monotone(a, (b - 1) as nat);
    }
}

/// The signed number that eight bytes spell in big-endian two's complement.
pub fn i64_from_be_bytes(b: [u8; 8]) -> (res: i64)
    ensures
        res == signed_of_word(big_endian(b@)),
{
    let u = u64_from_be_bytes(b);
    if u < 0x8000_0000_0000_0000u64 {
        u as i64
    } else {
        ((u - 0x8000_0000_0000_0000u64) as i64) + i64::MIN
    }
}

/// A random unsigned number from the operating system's random source.
pub fn random_u64() -> (res: Result<u64, getrandom::Error>)
    ensures
        res is Ok ==> exists|b: [u8; 8]| res == Ok::<u64, getrandom::Error>(big_endian(b@) as u64),
{
    match random_bytes() {
        Ok(b) => Ok(u64_from_be_bytes(b)),
        Err(e) => Err(e),
    }
}

/// A random signed number from the operating system's random source.
pub fn random_i64() -> (res: Result<i64, getrandom::Error>)
    ensures
        res is Ok ==> exists|b: [u8; 8]| res == Ok::<i64, getrandom::Error>(signed_of_word(big_endian(b@)) as i64),
{
    match random_bytes() {
        Ok(b) => Ok(i64_from_be_bytes(b)),
        Err(e) => Err(e),
    }
}

/// One attempt at a random id: `Ok(None)` when the random number was refused by
/// [`is_valid_id`], and an id in range otherwise.
pub fn random_id_candidate() -> (res: Result<Option<i64>, getrandom::Error>)
    ensures
        res matches Ok(o) ==> exists|id: i64| o == valid_id_of(id as int),
        res matches Ok(Some(v)) ==> MIN_ID_EXCLUSIVE < v < MAX_SAFE_ID,
{
    match random_i64() {
        Ok(id) => Ok(is_valid_id(id)),
        Err(e) => Err(e),
    }
}

/// The characters that random tokens are made of.
pub open spec fn token_alphabet() -> Seq<char> {
    "abcdefghijklmnopqrstuvwxyzABCDEFGHIJKLMNOPQRSTUVWXYZ0123456789"@
}

/// The token character at `index` of the alphabet, if there is one.
pub fn token_char(index: usize) -> (res: Option<char>)
    ensures
        res == (if index < token_alphabet().len() { Some(token_alphabet()[index as int]) } else { None }),
{
    let chars = "abcdefghijklmnopqrstuvwxyzABCDEFGHIJKLMNOPQRSTUVWXYZ0123456789";
    if index < chars.unicode_len() {
        Some(chars.get_char(index))
    } else {
        None
    }
}

/// The position in `0..n` that a random 64-bit word picks: the word read as a fraction
/// of `2^64`, scaled by `n` and rounded down.
pub open spec fn scaled_pick(u: u64, n: u64) -> int {
    (u as int * n as int) / 0x1_0000_0000_0000_0000
}

/// Scales a random word to a position in `0..n`.
pub fn scale_to(u: u64, n: u64) -> (res: u64)
    requires
        n > 0,
    ensures
        res == scaled_pick(u, n),
        res < n,
{
    assert((u as int) * (n as int) <= 0xffff_ffff_ffff_ffff * 0xffff_ffff_ffff_ffff) by (nonlinear_arith)
        requires
            u <= 0xffff_ffff_ffff_ffff,
            n <= 0xffff_ffff_ffff_ffff,
    ;
    let p: u128 = (u as u128) * (n as u128);
    proof {
        assert((u as int) * (n as int) < 0x1_0000_0000_0000_0000 * (n as int)) by (nonlinear_arith)
            requires
                u < 0x1_0000_0000_0000_0000,
                n > 0,
        ;
        assert(p as int / 0x1_0000_0000_0000_0000 < n as int) by (nonlinear_arith)
            requires
                p as int == (u as int) * (n as int),
                (u as int) * (n as int) < 0x1_0000_0000_0000_0000 * (n as int),
        ;
    }
    (p / 0x1_0000_0000_0000_0000u128) as u64
}

/// A random token of `length` characters, each drawn from the 62 letters and digits
/// of [`token_alphabet`].
pub fn random_token(length: u8) -> (res: Result<String, getrandom::Error>)
    ensures
        res matches Ok(s) ==> {
            &&& s@.len() == length
            &&& forall|i: int| 0 <= i < s@.len() ==> #[trigger] token_alphabet().contains(s@[i])
        },
        length == 0 ==> (res matches Ok(s) && s@.len() == 0),
{
    proof {
        lemma_token_alphabet();
    }
    let mut code = String::new();
    let mut k: u8 = 0;
    while k < length
        invariant
            k <= length,
            code@.len() == k,
            token_alphabet().len() == 62,
            forall|i: int| 0 <= i < code@.len() ==> #[trigger] token_alphabet().contains(code@[i]),
        decreases length - k,
    {
        let u = match random_u64() {
            Ok(u) => u,
            Err(e) => return Err(e),
        };
        let index = scale_to(u, 62);
        let c = token_char(index as usize).unwrap();
        let ghost before = code@;
        push_char(&mut code, c);
        proof {
            assert(token_alphabet()[index as int] == c);
            assert forall|i: int| 0 <= i < code@.len() implies #[trigger] token_alphabet().contains(code@[i]) by {
                if i < before.len() {
                    assert(code@[i] == before[i]);
                } else {
                    assert(code@[i] == token_alphabet()[index as int]);
                }
            }
        }
        k = k + 1;
    }
    Ok(code)
}

/// The character with code `48 + digit`: a decimal digit for `digit` below ten, and `:`
/// for ten.
pub fn code_char(digit: u32) -> (res: char)
    requires
        digit <= 10,
    ensures
        res == (48 + digit) as char,
{
    let b: u8 = 48 + digit as u8;
    b as char
}

/// Whether `c` is one of the decimal digits `0` to `9`.
pub open spec fn is_decimal_digit(c: char) -> bool {
    '0' <= c <= '9'
}

/// A random code of `length` decimal digits.
pub fn random_code(length: u8) -> (res: Result<String, getrandom::Error>)
    ensures
        res matches Ok(s) ==> {
            &&& s@.len() == length
            &&& forall|i: int| 0 <= i < s@.len() ==> #[trigger] is_decimal_digit(s@[i])
        },
        length == 0 ==> (res matches Ok(s) && s@.len() == 0),
{
    let mut code = String::new();
    let mut k: u8 = 0;
    while k < length
        invariant
            k <= length,
            code@.len() == k,
            forall|i: int| 0 <= i < code@.len() ==> #[trigger] is_decimal_digit(code@[i]),
        decreases length - k,
    {
        let u = match random_u64() {
            Ok(u) => u,
            Err(e) => return Err(e),
        };
        let digit = scale_to(u, 10);
        let c = code_char(digit as u32);
        let ghost before = code@;
        push_char(&mut code, c);
        proof {
            assert forall|i: int| 0 <= i < code@.len() implies #[trigger] is_decimal_digit(code@[i]) by {
                if i < before.len() {
                    assert(code@[i] == before[i]);
                }
            }
        }
        k = k + 1;
    }
    Ok(code)
}

/// The alphabet has 62 characters: the lower-case letters, the upper-case letters and
/// the digits, in that order.
pub proof fn lemma_token_alphabet()
    ensures
        token_alphabet().len() == 62,
        token_alphabet()[0] == 'a',
        token_alphabet()[25] == 'z',
        token_alphabet()[26] == 'A',
        token_alphabet()[51] == 'Z',
        token_alphabet()[52] == '0',
        token_alphabet()[61] == '9',
{
    reveal_strlit("abcdefghijklmnopqrstuvwxyzABCDEFGHIJKLMNOPQRSTUVWXYZ0123456789");
}
} // verus!
