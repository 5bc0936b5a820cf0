//! 128-bit identifiers: random generation, and the string form a session id
//! takes inside a cookie (32 hexadecimal digits), with a verified encoder
//! and decoder.

use vstd::prelude::*;

verus! {

/// Relies on `uuid::Uuid::new_v4`: a fresh random version-4 UUID, taken as
/// its 128-bit integer value. Nothing is promised of a random value.
#[verifier::external_body]
pub(crate) fn random_uid() -> u128 {
    uuid::Uuid::new_v4().as_u128()
}

/// A fresh random identifier that provably differs from `prior`. Should the
/// fresh draw collide with `prior` (one chance in 2^128), its lowest bit is
/// flipped instead of drawing again.
pub(crate) fn fresh_uid_distinct_from(prior: u128) -> (r: u128)
    ensures
        r != prior,
{
    let n = random_uid();
    if n == prior {
        proof {
            assert(n ^ 1 != n) by (bit_vector);
        }
        n ^ 1
    } else {
        n
    }
}

/// Relies on `std::time::SystemTime::now`, read as whole milliseconds since
/// the Unix epoch. Nothing useful can be promised of a clock reading.
#[verifier::external_body]
pub fn now_millis() -> u64 {
    match std::time::SystemTime::now().duration_since(std::time::UNIX_EPOCH) {
        Ok(d) => d.as_millis() as u64,
        Err(_) => 0,
    }
}

/// Relies on `String::from_iter` over `char`: the resulting string holds
/// exactly the characters handed in, in order.
#[verifier::external_body]
fn chars_to_string(chars: Vec<char>) -> (r: String)
    ensures
        r@ == chars@,
{
    chars.into_iter().collect()
}

/// 16 to the power `k`.
pub open spec fn pow16(k: nat) -> int
    decreases k,
{
    if k == 0 {
        1
    } else {
        16 * pow16((k - 1) as nat)
    }
}

/// The `i`-th hexadecimal digit of `u`, most significant first; `i` ranges
/// over `0..32`.
pub open spec fn nibble_at(u: u128, i: int) -> int {
    (u as int / pow16((31 - i) as nat)) % 16
}

/// The lower-case hexadecimal digit character for `n` in `0..16`.
pub open spec fn nibble_char(n: int) -> char {
    if n < 10 {
        (48 + n) as char
    } else {
        (87 + n) as char
    }
}

/// The value of a hexadecimal digit character, upper or lower case, or `-1`
/// for any other character.
pub open spec fn hex_val(c: char) -> int {
    let x = c as int;
    if 48 <= x <= 57 {
        x - 48
    } else if 97 <= x <= 102 {
        x - 87
    } else if 65 <= x <= 70 {
        x - 55
    } else {
        -1
    }
}

pub open spec fn is_hex(c: char) -> bool {
    hex_val(c) >= 0
}

/// The string form of the identifier `u`: its 32 hexadecimal digits, most
/// significant first, in lower case.
pub open spec fn uid_chars(u: u128) -> Seq<char> {
    Seq::new(32, |i: int| nibble_char(nibble_at(u, i)))
}

/// The value of a sequence of hexadecimal digit characters.
pub open spec fn hex_value(s: Seq<char>) -> int
    decreases s.len(),
{
    if s.len() == 0 {
        0
    } else {
        hex_value(s.drop_last()) * 16 + hex_val(s.last())
    }
}

/// What parsing a candidate identifier string yields: its value, if it is
/// exactly 32 hexadecimal digits; nothing otherwise.
pub open spec fn parse_uid_spec(s: Seq<char>) -> Option<u128> {
    if s.len() == 32 && (forall|i: int| 0 <= i < 32 ==> is_hex(#[trigger] s[i])) {
        Some(hex_value(s) as u128)
    } else {
        None
    }
}

proof fn lemma_pow16_pos(k: nat)
    ensures
        pow16(k) >= 1,
    decreases k,
{
    if k > 0 {
        lemma_pow16_pos((k - 1) as nat);
    }
}

proof fn lemma_pow16_mono(a: nat, b: nat)
    requires
        a <= b,
    ensures
        pow16(a) <= pow16(b),
    decreases b,
{
    if a < b {
        lemma_pow16_mono(a, (b - 1) as nat);
        lemma_pow16_pos((b - 1) as nat);
    }
}

/// A string of hexadecimal digits has a value below 16 to its length.
proof fn lemma_hex_value_bound(s: Seq<char>)
    requires
        forall|i: int| 0 <= i < s.len() ==> is_hex(#[trigger] s[i]),
    ensures
        0 <= hex_value(s) < pow16(s.len()),
    decreases s.len(),
{
    if s.len() > 0 {
        assert(forall|i: int| 0 <= i < s.drop_last().len() ==> is_hex(#[trigger] s.drop_last()[i]));
        lemma_hex_value_bound(s.drop_last());
        assert(is_hex(s.last()));
        assert(hex_val(s.last()) < 16);
    }
}

fn nibble_to_char(n: u8) -> (c: char)
    requires
        n < 16,
    ensures
        c == nibble_char(n as int),
{
    if n < 10 {
        (48 + n) as char
    } else {
        (87 + n) as char
    }
}

fn char_to_nibble(c: char) -> (r: Option<u8>)
    ensures
        r is Some <==> is_hex(c),
        r matches Some(n) ==> n < 16 && n as int == hex_val(c),
{
    let x = c as u32;
    if 48 <= x && x <= 57 {
        Some((x - 48) as u8)
    } else if 97 <= x && x <= 102 {
        Some((x - 87) as u8)
    } else if 65 <= x && x <= 70 {
        Some((x - 55) as u8)
    } else {
        None
    }
}

/// Render an identifier in its cookie string form.
pub fn format_uid(u: u128) -> (r: String)
    ensures
        r@ == uid_chars(u),
{
    let mut buf: Vec<char> = Vec::new();
    let mut div: u128 = 0x10000000000000000000000000000000;
    proof {
        assert(pow16(31) == 0x10000000000000000000000000000000) by {
            reveal_with_fuel(pow16, 32);
        }
    }
    let mut k: usize = 0;
    while k < 32
        invariant
            k <= 32,
            buf@.len() == k,
            k < 32 ==> div as int == pow16((31 - k) as nat),
            forall|j: int| 0 <= j < k ==> buf@[j] == nibble_char(nibble_at(u, j)),
        decreases 32 - k,
    {
        proof {
            lemma_pow16_pos((31 - k) as nat);
        }
        let d: u8 = ((u / div) % 16) as u8;
        assert(d as int == nibble_at(u, k as int));
        buf.push(nibble_to_char(d));
        if k < 31 {
            assert(div as int / 16 == pow16((30 - k) as nat));
            div = div / 16;
        }
        k += 1;
    }
    let r = chars_to_string(buf);
    assert(r@ =~= uid_chars(u));
    r
}

/// Parse a cookie value back into an identifier. Returns `None` for
/// anything but exactly 32 hexadecimal digits.
pub fn parse_uid(s: &str) -> (r: Option<u128>)
    ensures
        r == parse_uid_spec(s@),
{
    let len = s.unicode_len();
    if len != 32 {
        return None;
    }
    let mut acc: u128 = 0;
    let mut k: usize = 0;
    while k < 32
        invariant
            k <= 32,
            s@.len() == 32,
            forall|i: int| 0 <= i < k ==> is_hex(#[trigger] s@[i]),
            acc as int == hex_value(s@.subrange(0, k as int)),
            (acc as int) < pow16(k as nat),
        decreases 32 - k,
    {
        let c = s.get_char(k);
        match char_to_nibble(c) {
            Some(n) => {
                proof {
                    lemma_pow16_mono((k + 1) as nat, 32);
                    assert(pow16(32) == 0x100000000000000000000000000000000) by {
                        reveal_with_fuel(pow16, 33);
                    }
                    assert(s@.subrange(0, (k + 1) as int).drop_last() =~= s@.subrange(
                        0,
                        k as int,
                    ));
                    assert(s@.subrange(0, (k + 1) as int).last() == s@[k as int]);
                }
                acc = acc * 16 + (n as u128);
                k += 1;
            },
            None => {
                return None;
            },
        }
    }
    proof {
        assert(s@.subrange(0, 32) =~= s@);
    }
    Some(acc)
}

/// Decoding inverts encoding: the string form of any identifier parses back
/// to that identifier.
pub proof fn lemma_uid_round_trip(u: u128)
    ensures
        parse_uid_spec(uid_chars(u)) == Some(u),
{
    let s = uid_chars(u);
    assert forall|i: int| 0 <= i < 32 implies is_hex(#[trigger] s[i]) by {
        assert(0 <= nibble_at(u, i) < 16);
    }
    lemma_uid_chars_value(u, 32);
    assert(s.subrange(0, 32) =~= s);
    lemma_pow16_pos(0);
    assert(pow16(0) == 1);
    assert(hex_value(s) == u as int / pow16(0));
}

/// The value of the first `k` digits of `uid_chars(u)` is `u` shifted down
/// by the remaining digits.
proof fn lemma_uid_chars_value(u: u128, k: int)
    requires
        0 <= k <= 32,
    ensures
        hex_value(uid_chars(u).subrange(0, k)) == u as int / pow16((32 - k) as nat),
    decreases k,
{
    let s = uid_chars(u);
    if k == 0 {
        assert(s.subrange(0, 0) =~= Seq::<char>::empty());
        lemma_pow16_pos(32);
        lemma_pow16_mono(32, 32);
        assert(u as int / pow16(32) == 0) by {
            assert(pow16(32) == 0x100000000000000000000000000000000) by {
                reveal_with_fuel(pow16, 33);
            }
            vstd::arithmetic::div_mod::lemma_basic_div(u as int, pow16(32));
        }
    } else {
        lemma_uid_chars_value(u, k - 1);
        let pre = s.subrange(0, k);
        assert(pre.drop_last() =~= s.subrange(0, k - 1));
        assert(pre.last() == s[k - 1]);
        assert(s[k - 1] == nibble_char(nibble_at(u, k - 1)));
        assert(0 <= nibble_at(u, k - 1) < 16);
        assert(hex_val(nibble_char(nibble_at(u, k - 1))) == nibble_at(u, k - 1));
        // u / 16^(33-k) * 16 + (u / 16^(32-k)) % 16 == u / 16^(32-k)
        let q = u as int / pow16((32 - k) as nat);
        assert(pow16((33 - k) as nat) == 16 * pow16((32 - k) as nat));
        assert(u as int / pow16((33 - k) as nat) == q / 16) by {
            lemma_pow16_pos((32 - k) as nat);
            vstd::arithmetic::div_mod::lemma_div_denominator(
                u as int,
                pow16((32 - k) as nat),
                16,
            );
        }
        assert(nibble_at(u, k - 1) == q % 16);
        assert(q == 16 * (q / 16) + q % 16) by {
            vstd::arithmetic::div_mod::lemma_fundamental_div_mod(q, 16);
        }
    }
}

} // verus!
