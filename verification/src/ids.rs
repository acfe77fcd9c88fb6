use vstd::prelude::*;
use crate::text::push_char;

verus! {

/// Whether a 128-bit value carries the marks of a random (version 4,
/// RFC 4122 variant) UUID: version nibble 4 and variant bits `10`.
pub open spec fn is_v4_bits(bits: u128) -> bool {
    &&& (bits >> 76u128) & 0xfu128 == 4u128
    &&& (bits >> 62u128) & 0x3u128 == 2u128
}

/// A fresh random UUID of version 4, as its 128-bit big-endian value.
///
/// Trusted: wraps `uuid::Uuid::new_v4` and reads the result back with
/// `Uuid::as_u128`. The source of `new_v4` masks random bits with
/// `0xFFFFFFFFFFFF4FFFBFFFFFFFFFFFFFFF` and sets `0x40008000000000000000`,
/// which fixes the version nibble to 4 and the variant bits to `10`; the
/// other bits are random and nothing is said of them. The call panics when
/// the operating system's random source fails, which no precondition can
/// rule out.
#[verifier::external_body]
fn random_v4_bits() -> (bits: u128)
    ensures
        is_v4_bits(bits),
{
    uuid::Uuid::new_v4().as_u128()
}

/// The lowercase hexadecimal digit of a value below 16.
pub open spec fn hex_digit(n: u8) -> char {
    if n < 10 {
        (n + 48) as char
    } else {
        (n + 87) as char
    }
}

/// Hex digit number `d` (0 = most significant) of a 128-bit value.
pub open spec fn nibble(bits: u128, d: u128) -> u8 {
    ((bits >> (124u128 - 4u128 * d)) & 0xfu128) as u8
}

/// Whether position `p` of the hyphenated form holds a hyphen.
pub open spec fn is_hyphen_pos(p: int) -> bool {
    p == 8 || p == 13 || p == 18 || p == 23
}

/// How many hyphens stand before position `p` of the hyphenated form.
pub open spec fn hyphens_before(p: int) -> int {
    if p <= 8 {
        0
    } else if p <= 13 {
        1
    } else if p <= 18 {
        2
    } else if p <= 23 {
        3
    } else {
        4
    }
}

/// The hyphenated lowercase form of a UUID (`8-4-4-4-12` hex digits), which
/// is what `uuid::Uuid`'s `Display` prints.
pub open spec fn uuid_text(bits: u128) -> Seq<char> {
    Seq::new(
        36,
        |p: int|
            if is_hyphen_pos(p) {
                '-'
            } else {
                hex_digit(nibble(bits, (p - hyphens_before(p)) as u128))
            },
    )
}

/// Whether a text is the hyphenated form of a random UUID.
pub open spec fn is_memory_id(s: Seq<char>) -> bool {
    exists|bits: u128| is_v4_bits(bits) && s == uuid_text(bits)
}

fn hex_char(n: u8) -> (c: char)
    requires
        n < 16,
    ensures
        c == hex_digit(n),
{
    if n < 10 {
        (n + 48) as char
    } else {
        (n + 87) as char
    }
}

fn hyphens_before_exec(p: u128) -> (h: u128)
    requires
        p <= 36,
    ensures
        h == hyphens_before(p as int),
{
    if p <= 8 {
        0
    } else if p <= 13 {
        1
    } else if p <= 18 {
        2
    } else if p <= 23 {
        3
    } else {
        4
    }
}

/// The hyphenated lowercase text of a 128-bit UUID value.
pub fn uuid_to_text(bits: u128) -> (s: String)
    ensures
        s@ == uuid_text(bits),
{
    let mut s = String::new();
    let ghost full = uuid_text(bits);
    let mut p: u128 = 0;
    while p < 36
        invariant
            p <= 36,
            full == uuid_text(bits),
            s@ == full.take(p as int),
        decreases 36 - p,
    {
        let c = if p == 8 || p == 13 || p == 18 || p == 23 {
            '-'
        } else {
            let d = p - hyphens_before_exec(p);
            let sh: u128 = 124 - 4 * d;
            let v: u128 = bits >> sh;
            assert(v & 0xfu128 < 16u128) by (bit_vector);
            hex_char((v & 0xfu128) as u8)
        };
        assert(c == full[p as int]);
        push_char(&mut s, c);
        assert(full.take(p + 1) == full.take(p as int).push(c));
        p = p + 1;
    }
    assert(full.take(36) == full);
    s
}

/// A fresh identifier for a memory: the text of a random version-4 UUID.
pub fn new_memory_id() -> (id: String)
    ensures
        is_memory_id(id@),
{
    let bits = random_v4_bits();
    let id = uuid_to_text(bits);
    assert(is_v4_bits(bits) && id@ == uuid_text(bits));
    id
}

} // verus!
