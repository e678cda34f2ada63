use vstd::prelude::*;
use vstd::string::StrSliceExecFns;

use crate::error::CollectError;
use crate::selector::selector_from_signature;
use crate::selector::selector_of;

verus! {

// ---------------------------------------------------------------------------
// Character classes
// ---------------------------------------------------------------------------

/// Whether `c` is a hexadecimal digit (`0-9`, `a-f`, `A-F`).
pub open spec fn is_hex_digit(c: char) -> bool {
    (48 <= c as u32 && c as u32 <= 57)  // '0' ..= '9'
    || (97 <= c as u32 && c as u32 <= 102)  // 'a' ..= 'f'
    || (65 <= c as u32 && c as u32 <= 70)  // 'A' ..= 'F'
}

/// The value of a hexadecimal digit.
pub open spec fn hex_digit_val(c: char) -> u8 {
    if 48 <= c as u32 && c as u32 <= 57 {
        (c as u32 - 48) as u8
    } else if 97 <= c as u32 && c as u32 <= 102 {
        (c as u32 - 87) as u8
    } else {
        (c as u32 - 55) as u8
    }
}

/// Whether `c` is a decimal digit (`0-9`).
pub open spec fn is_dec_digit(c: char) -> bool {
    48 <= c as u32 && c as u32 <= 57
}

/// The value of a decimal digit.
pub open spec fn dec_digit_val(c: char) -> int {
    c as u32 - 48
}

// ---------------------------------------------------------------------------
// Hex pairs
// ---------------------------------------------------------------------------

/// The byte written as the two hexadecimal digits `hi`, `lo`.
pub open spec fn hex_byte(hi: char, lo: char) -> u8 {
    (hex_digit_val(hi) * 16 + hex_digit_val(lo)) as u8
}

/// Whether a character sequence is a well-formed run of hex byte-pairs:
/// even length, every character a hex digit.
pub open spec fn hex_pairs_ok(s: Seq<char>) -> bool {
    s.len() % 2 == 0 && (forall|k: int| 0 <= k < s.len() ==> #[trigger] is_hex_digit(s[k]))
}

/// The bytes written by a run of hex byte-pairs, two digits per byte.
pub open spec fn hex_bytes(s: Seq<char>) -> Seq<u8>
    decreases s.len(),
{
    let n = s.len() as int;
    if n < 2 {
        Seq::empty()
    } else {
        hex_bytes(s.take(n - 2)).push(hex_byte(s[n - 2], s[n - 1]))
    }
}

// ---------------------------------------------------------------------------
// Decimal numbers
// ---------------------------------------------------------------------------

/// Whether every character of `s` is a decimal digit.
pub open spec fn all_dec_digits(s: Seq<char>) -> bool {
    forall|k: int| 0 <= k < s.len() ==> #[trigger] is_dec_digit(s[k])
}

/// The value of `s` read as a decimal number, most significant digit first.
pub open spec fn dec_val(s: Seq<char>) -> int
    decreases s.len(),
{
    let n = s.len() as int;
    if n == 0 {
        0
    } else {
        dec_val(s.take(n - 1)) * 10 + dec_digit_val(s[n - 1])
    }
}

/// Whether `s` is a valid unsigned decimal integer that fits in 64 bits:
/// nonempty, digits only, value at most `u64::MAX`.
pub open spec fn dec_ok(s: Seq<char>) -> bool {
    s.len() > 0 && all_dec_digits(s) && dec_val(s) <= u64::MAX
}

proof fn lemma_dec_val_nonneg(s: Seq<char>)
    requires
        all_dec_digits(s),
    ensures
        dec_val(s) >= 0,
    decreases s.len(),
{
    let n = s.len() as int;
    if n > 0 {
        assert forall|k: int| 0 <= k < n - 1 implies #[trigger] is_dec_digit(s.take(n - 1)[k]) by {
            assert(s.take(n - 1)[k] == s[k]);
        }
        lemma_dec_val_nonneg(s.take(n - 1));
        assert(is_dec_digit(s[n - 1]));
        assert(dec_val(s) == dec_val(s.take(n - 1)) * 10 + dec_digit_val(s[n - 1]));
    }
}

proof fn lemma_dec_val_prefix_le(s: Seq<char>, j: int)
    requires
        all_dec_digits(s),
        0 <= j <= s.len(),
    ensures
        dec_val(s.take(j)) <= dec_val(s),
    decreases s.len() - j,
{
    if j == s.len() {
        assert(s.take(j) =~= s);
    } else {
        assert(s.take(j + 1).take(j) =~= s.take(j));
        assert forall|k: int| 0 <= k < j implies #[trigger] is_dec_digit(s.take(j)[k]) by {
            assert(s.take(j)[k] == s[k]);
        }
        lemma_dec_val_nonneg(s.take(j));
        assert(is_dec_digit(s[j]));
        assert(s.take(j + 1)[j] == s[j]);
        assert(dec_val(s.take(j + 1)) == dec_val(s.take(j)) * 10 + dec_digit_val(s[j]));
        lemma_dec_val_prefix_le(s, j + 1);
    }
}

// ---------------------------------------------------------------------------
// Locating characters
// ---------------------------------------------------------------------------

/// Whether `c` occurs anywhere in `s`.
pub open spec fn contains_char(s: Seq<char>, c: char) -> bool {
    exists|i: int| 0 <= i < s.len() && s[i] == c
}

/// The index of the first occurrence of `c` in `s` (meaningful only when
/// `contains_char(s, c)` holds).
pub open spec fn first_index_of(s: Seq<char>, c: char) -> int {
    choose|i: int|
        0 <= i < s.len() && s[i] == c && (forall|j: int| 0 <= j < i ==> s[j] != c)
}

proof fn lemma_first_index(s: Seq<char>, c: char, i: int)
    requires
        0 <= i < s.len(),
        s[i] == c,
        forall|j: int| 0 <= j < i ==> s[j] != c,
    ensures
        contains_char(s, c),
        first_index_of(s, c) == i,
{
    let fi = first_index_of(s, c);
    assert(0 <= fi < s.len() && s[fi] == c && (forall|j: int| 0 <= j < fi ==> s[j] != c));
    if fi < i {
        assert(s[fi] != c);
    }
    if i < fi {
        assert(s[i] != c);
    }
}

/// Returns the index of the first occurrence of `c` in `s`, if any.
fn find_char(s: &str, c: char) -> (r: Option<usize>)
    ensures
        match r {
            Some(i) => i < s@.len() && s@[i as int] == c && (forall|j: int|
                0 <= j < i ==> s@[j] != c),
            None => forall|j: int| 0 <= j < s@.len() ==> s@[j] != c,
        },
{
    let n = s.unicode_len();
    let mut i: usize = 0;
    while i < n
        invariant
            n == s@.len(),
            i <= n,
            forall|j: int| 0 <= j < i ==> s@[j] != c,
        decreases n - i,
    {
        if s.get_char(i) == c {
            return Some(i);
        }
        i += 1;
    }
    None
}

// ---------------------------------------------------------------------------
// The `0x` prefix
// ---------------------------------------------------------------------------

/// `s` with every leading `0x` stripped off.
pub open spec fn strip_0x(s: Seq<char>) -> Seq<char>
    decreases s.len(),
{
    if s.len() >= 2 && s[0] == '0' && s[1] == 'x' {
        strip_0x(s.skip(2))
    } else {
        s
    }
}

/// Stripping the `0x` prefix is idempotent: once stripped, stripping again
/// changes nothing, so a key written with or without the prefix parses to
/// the same result.
pub proof fn lemma_strip_0x_idempotent(s: Seq<char>)
    ensures
        strip_0x(strip_0x(s)) == strip_0x(s),
    decreases s.len(),
{
    if s.len() >= 2 && s[0] == '0' && s[1] == 'x' {
        lemma_strip_0x_idempotent(s.skip(2));
    }
}

/// Writing a hex segment with a leading `0x` leaves the decoded result
/// unchanged: the prefix is stripped before any byte-pair is read.
pub proof fn lemma_strip_0x_of_prefixed(t: Seq<char>)
    ensures
        strip_0x(seq!['0', 'x'] + t) == strip_0x(t),
{
    let s = seq!['0', 'x'] + t;
    assert(s[0] == '0' && s[1] == 'x');
    assert(s.skip(2) =~= t);
}

/// Strips every leading `0x` from `s`.
fn strip_hex_prefix<'a>(s: &'a str) -> (r: &'a str)
    ensures
        r@ == strip_0x(s@),
{
    let mut t: &str = s;
    let mut n: usize = t.unicode_len();
    while n >= 2 && t.get_char(0) == '0' && t.get_char(1) == 'x'
        invariant
            n == t@.len(),
            strip_0x(t@) == strip_0x(s@),
        decreases t@.len(),
    {
        let ghost t0 = t@;
        t = t.substring_char(2, n);
        n = t.unicode_len();
        proof {
            assert(t@ =~= t0.skip(2));
        }
    }
    t
}

// ---------------------------------------------------------------------------
// The parser
// ---------------------------------------------------------------------------

/// Whether the encoded key holds a `(`, marking the full-signature form.
pub open spec fn has_paren(s: Seq<char>) -> bool {
    contains_char(s, '(')
}

/// Whether the encoded key holds a `-`, marking the compact hex-size form.
pub open spec fn has_dash(s: Seq<char>) -> bool {
    contains_char(s, '-')
}

/// The hex segment of a compact key: everything before the first `-`, with
/// any leading `0x` stripped.
pub open spec fn hex_seg(s: Seq<char>) -> Seq<char> {
    strip_0x(s.take(first_index_of(s, '-')))
}

/// The size segment of a compact key: everything after the first `-`.
pub open spec fn size_seg(s: Seq<char>) -> Seq<char> {
    s.skip(first_index_of(s, '-') + 1)
}

/// Whether an encoded trace key parses.
pub open spec fn parse_ok(s: Seq<char>) -> bool {
    has_paren(s) || (has_dash(s) && hex_pairs_ok(hex_seg(s)) && dec_ok(size_seg(s)))
}

/// The selector bytes a well-formed encoded trace key parses to.
pub open spec fn parse_sel(s: Seq<char>) -> Seq<u8> {
    if has_paren(s) {
        selector_of(s)
    } else {
        hex_bytes(hex_seg(s))
    }
}

/// The call-data size a well-formed encoded trace key parses to. The
/// full-signature form carries no size, so it reads as the documented
/// placeholder `0`.
pub open spec fn parse_size(s: Seq<char>) -> u64 {
    if has_paren(s) {
        0
    } else {
        dec_val(size_seg(s)) as u64
    }
}

/// The error a malformed encoded trace key parses to.
pub open spec fn parse_err(s: Seq<char>) -> CollectError {
    if !has_dash(s) {
        CollectError::MalformedPair
    } else if !hex_pairs_ok(hex_seg(s)) {
        CollectError::InvalidHex
    } else {
        CollectError::InvalidSize
    }
}

/// Returns `Some(value)` when `c` is a hex digit, `None` otherwise.
fn hex_digit_value(c: char) -> (r: Option<u8>)
    ensures
        r is Some <==> is_hex_digit(c),
        r matches Some(v) ==> v == hex_digit_val(c) && v < 16,
{
    let u = c as u32;
    if 48 <= u && u <= 57 {
        Some((u - 48) as u8)
    } else if 97 <= u && u <= 102 {
        Some((u - 87) as u8)
    } else if 65 <= u && u <= 70 {
        Some((u - 55) as u8)
    } else {
        None
    }
}

/// Decodes a run of hex byte-pairs, two digits per byte.
fn decode_hex_pairs(s: &str) -> (r: Result<Vec<u8>, CollectError>)
    ensures
        r is Ok <==> hex_pairs_ok(s@),
        r matches Ok(v) ==> v@ == hex_bytes(s@),
        r is Err ==> r == Err::<Vec<u8>, CollectError>(CollectError::InvalidHex),
{
    let n = s.unicode_len();
    if n % 2 != 0 {
        return Err(CollectError::InvalidHex);
    }
    let mut out: Vec<u8> = Vec::new();
    let mut i: usize = 0;
    while i < n
        invariant
            n == s@.len(),
            n % 2 == 0,
            i % 2 == 0,
            i <= n,
            forall|j: int| 0 <= j < i ==> #[trigger] is_hex_digit(s@[j]),
            out@ == hex_bytes(s@.take(i as int)),
        decreases n - i,
    {
        let hi = s.get_char(i);
        let lo = s.get_char(i + 1);
        match (hex_digit_value(hi), hex_digit_value(lo)) {
            (Some(h), Some(l)) => {
                out.push(h * 16 + l);
                proof {
                    assert(s@.take(i + 2).take(i as int) =~= s@.take(i as int));
                    assert(out@ == hex_bytes(s@.take(i + 2)));
                }
                i += 2;
            },
            _ => {
                assert(!is_hex_digit(s@[i as int]) || !is_hex_digit(s@[i + 1]));
                return Err(CollectError::InvalidHex);
            },
        }
    }
    proof {
        assert(s@.take(n as int) =~= s@);
    }
    Ok(out)
}

/// Parses a nonempty run of decimal digits as a 64-bit unsigned integer.
fn parse_u64_decimal(s: &str) -> (r: Result<u64, CollectError>)
    ensures
        r is Ok <==> dec_ok(s@),
        r matches Ok(v) ==> v as int == dec_val(s@),
        r is Err ==> r == Err::<u64, CollectError>(CollectError::InvalidSize),
{
    let n = s.unicode_len();
    if n == 0 {
        return Err(CollectError::InvalidSize);
    }
    let mut acc: u64 = 0;
    let mut i: usize = 0;
    while i < n
        invariant
            n == s@.len(),
            n > 0,
            i <= n,
            forall|j: int| 0 <= j < i ==> #[trigger] is_dec_digit(s@[j]),
            acc as int == dec_val(s@.take(i as int)),
        decreases n - i,
    {
        let c = s.get_char(i);
        let u = c as u32;
        if !(48 <= u && u <= 57) {
            assert(!is_dec_digit(s@[i as int]));
            return Err(CollectError::InvalidSize);
        }
        let d = (u - 48) as u64;
        proof {
            assert(s@.take(i + 1).take(i as int) =~= s@.take(i as int));
            assert(dec_val(s@.take(i + 1)) == acc * 10 + d);
        }
        let shifted = match acc.checked_mul(10) {
            Some(x) => x,
            None => {
                proof {
                    if dec_ok(s@) {
                        lemma_dec_val_prefix_le(s@, i + 1);
                    }
                }
                return Err(CollectError::InvalidSize);
            },
        };
        acc = match shifted.checked_add(d) {
            Some(x) => x,
            None => {
                proof {
                    if dec_ok(s@) {
                        lemma_dec_val_prefix_le(s@, i + 1);
                    }
                }
                return Err(CollectError::InvalidSize);
            },
        };
        i += 1;
    }
    proof {
        assert(s@.take(n as int) =~= s@);
    }
    Ok(acc)
}

/// Decodes one encoded trace key into its selector bytes and call-data size.
///
/// A key holding `(` is a full textual function signature: the selector is
/// the first 4 bytes of its Keccak-256 hash and the size is the placeholder
/// `0`. Any other key must split on its first `-` into a hex segment (an
/// optional `0x` prefix, then hex byte-pairs) and a decimal size segment.
pub fn parse_signature_size(signature_size: &str) -> (r: Result<(Vec<u8>, u64), CollectError>)
    ensures
        r is Ok <==> parse_ok(signature_size@),
        r matches Ok(p) ==> p.0@ == parse_sel(signature_size@) && p.1 == parse_size(
            signature_size@,
        ),
        r matches Err(e) ==> e == parse_err(signature_size@),
{
    if let Some(_) = find_char(signature_size, '(') {
        let selector = selector_from_signature(signature_size);
        let mut bytes: Vec<u8> = Vec::new();
        bytes.push(selector[0]);
        bytes.push(selector[1]);
        bytes.push(selector[2]);
        bytes.push(selector[3]);
        proof {
            assert(bytes@ =~= selector@);
        }
        return Ok((bytes, 0));
    }
    match find_char(signature_size, '-') {
        None => Err(CollectError::MalformedPair),
        Some(di) => {
            proof {
                lemma_first_index(signature_size@, '-', di as int);
            }
            let n = signature_size.unicode_len();
            let hex_raw = signature_size.substring_char(0, di);
            let size_part = signature_size.substring_char(di + 1, n);
            proof {
                assert(size_part@ =~= size_seg(signature_size@));
            }
            let hex_part = strip_hex_prefix(hex_raw);
            let bytes = match decode_hex_pairs(hex_part) {
                Ok(b) => b,
                Err(e) => {
                    return Err(e);
                },
            };
            let size = match parse_u64_decimal(size_part) {
                Ok(v) => v,
                Err(e) => {
                    return Err(e);
                },
            };
            Ok((bytes, size))
        },
    }
}

} // verus!
