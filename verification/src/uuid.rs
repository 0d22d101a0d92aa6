//! Session and temporary-file identifiers in the textual shape of a
//! version-4 UUID, derived from the clock by one step of a linear
//! congruential generator.
use vstd::prelude::*;
use crate::text::{hex_fixed, hex_digit, push_hex_fixed, is_lower_hex, lemma_hex_fixed};

verus! {

/// The multiplier of the generator step.
pub const UUID_LCG_MUL: u64 = 6364136223846793005;

/// The increment of the generator step.
pub const UUID_LCG_ADD: u64 = 1442695040888963407;

/// The 64-bit value an identifier is drawn from: the low 64 bits of the
/// nanosecond timestamp, multiplied and incremented modulo 2^64.
pub open spec fn uuid_seed(nanos: u128) -> u64 {
    ((((nanos as nat) % 0x1_0000_0000_0000_0000) * (UUID_LCG_MUL as nat) + (UUID_LCG_ADD as nat))
        % 0x1_0000_0000_0000_0000) as u64
}

/// The identifier text for the value `r`:
/// `xxxxxxxx-xxxx-4xxx-Yxxx-xxxxxxxxxxxx` in lowercase hexadecimal, made of
/// bits 32..64, bits 16..32, bits 0..12, `8` plus bits 48..62 (so `Y` is one
/// of `8 9 a b`) and bits 0..44 of `r`.
pub open spec fn uuid_text(r: u64) -> Seq<char> {
    hex_fixed((r as nat) / 0x1_0000_0000, 8) + seq!['-'] + hex_fixed(
        ((r as nat) / 0x1_0000) % 0x1_0000,
        4,
    ) + seq!['-', '4'] + hex_fixed((r as nat) % 0x1000, 3) + seq!['-'] + hex_fixed(
        0x8000 + ((r as nat) / 0x1_0000_0000_0000) % 0x4000,
        4,
    ) + seq!['-'] + hex_fixed((r as nat) % 0x1000_0000_0000, 12)
}

/// The generator step applied to a nanosecond timestamp.
pub fn uuid_seed_of(nanos: u128) -> (r: u64)
    ensures
        r == uuid_seed(nanos),
{
    let t = nanos as u64;
    assert(nanos as u64 == nanos % 0x1_0000_0000_0000_0000) by (bit_vector);
    let m = t.wrapping_mul(UUID_LCG_MUL);
    let r = m.wrapping_add(UUID_LCG_ADD);
    proof {
        let a = t as nat * UUID_LCG_MUL as nat;
        let big: nat = 0x1_0000_0000_0000_0000;
        assert(m as nat == a % big);
        assert(r as nat == (a % big + UUID_LCG_ADD as nat) % big) by {
            assert(0 <= a % big < big) by (nonlinear_arith)
                requires
                    big > 0,
            ;
        }
        vstd::arithmetic::div_mod::lemma_add_mod_noop(a as int, UUID_LCG_ADD as int, big as int);
        vstd::arithmetic::div_mod::lemma_mod_twice(a as int, big as int);
        vstd::arithmetic::div_mod::lemma_small_mod(UUID_LCG_ADD as nat, big);
    }
    r
}

/// The identifier text for the value `r`.
pub fn uuid_from_seed(r: u64) -> (s: String)
    ensures
        s@ == uuid_text(r),
{
    let mut s = String::new();
    let a = r >> 32u64;
    let b = (r >> 16u64) & 0xffff;
    let c = r & 0xfff;
    let d = 0x8000u64 | ((r >> 48u64) & 0x3fff);
    let e = r & 0xfff_ffff_ffffu64;
    assert(r >> 32u64 == r / 0x1_0000_0000) by (bit_vector);
    assert((r >> 16u64) & 0xffff == (r / 0x1_0000) % 0x1_0000) by (bit_vector);
    assert(r & 0xfff == r % 0x1000) by (bit_vector);
    assert(0x8000u64 | ((r >> 48u64) & 0x3fff) == 0x8000 + (r / 0x1_0000_0000_0000) % 0x4000)
        by (bit_vector);
    assert(r & 0xfff_ffff_ffffu64 == r % 0x1000_0000_0000) by (bit_vector);
    push_hex_fixed(&mut s, a, 8);
    s.push('-');
    push_hex_fixed(&mut s, b, 4);
    s.push('-');
    s.push('4');
    push_hex_fixed(&mut s, c, 3);
    s.push('-');
    push_hex_fixed(&mut s, d, 4);
    s.push('-');
    push_hex_fixed(&mut s, e, 12);
    assert(s@ =~= uuid_text(r));
    s
}

/// The identifier for a nanosecond timestamp.
pub fn uuid_from_nanos(nanos: u128) -> (s: String)
    ensures
        s@ == uuid_text(uuid_seed(nanos)),
        is_uuid_v4_text(s@),
{
    proof {
        lemma_uuid_shape(uuid_seed(nanos));
    }
    uuid_from_seed(uuid_seed_of(nanos))
}

/// Nanoseconds since the Unix epoch by the system clock
/// (`SystemTime::now().duration_since(UNIX_EPOCH)`, std): `None` when the
/// clock reads earlier than the epoch. Nothing is claimed of the value.
#[verifier::external_body]
fn nanos_since_epoch() -> (r: Option<u128>) {
    std::time::SystemTime::now().duration_since(std::time::UNIX_EPOCH).ok().map(|d| d.as_nanos())
}

/// A fresh identifier from the clock: the identifier of the current
/// nanosecond timestamp, or `None` when the clock reads earlier than the
/// Unix epoch.
pub fn random_uuid() -> (r: Option<String>)
    ensures
        r matches Some(s) ==> exists|nanos: u128| s@ == uuid_text(uuid_seed(nanos)),
        r matches Some(s) ==> is_uuid_v4_text(s@),
{
    match nanos_since_epoch() {
        Some(nanos) => Some(uuid_from_nanos(nanos)),
        None => None,
    }
}


/// The textual shape of a version-4 UUID: 36 characters, dashes at 8, 13,
/// 18 and 23, the version digit `4` at 14, a variant digit `8`, `9`, `a` or
/// `b` at 19, and lowercase hexadecimal digits everywhere else.
pub open spec fn is_uuid_v4_text(s: Seq<char>) -> bool {
    &&& s.len() == 36
    &&& forall|i: int|
        0 <= i < 36 ==> {
            if i == 8 || i == 13 || i == 18 || i == 23 {
                #[trigger] s[i] == '-'
            } else if i == 14 {
                s[i] == '4'
            } else if i == 19 {
                s[i] == '8' || s[i] == '9' || s[i] == 'a' || s[i] == 'b'
            } else {
                is_lower_hex(s[i])
            }
        }
}

/// Every identifier this library makes has the shape of a version-4 UUID.
pub proof fn lemma_uuid_shape(r: u64)
    ensures
        is_uuid_v4_text(uuid_text(r)),
{
    let rn = r as nat;
    let a = hex_fixed(rn / 0x1_0000_0000, 8);
    let b = hex_fixed((rn / 0x1_0000) % 0x1_0000, 4);
    let c = hex_fixed(rn % 0x1000, 3);
    let x = 0x8000 + (rn / 0x1_0000_0000_0000) % 0x4000;
    let d = hex_fixed(x, 4);
    let e = hex_fixed(rn % 0x1000_0000_0000, 12);
    lemma_hex_fixed(rn / 0x1_0000_0000, 8);
    lemma_hex_fixed((rn / 0x1_0000) % 0x1_0000, 4);
    lemma_hex_fixed(rn % 0x1000, 3);
    lemma_hex_fixed(x, 4);
    lemma_hex_fixed(rn % 0x1000_0000_0000, 12);
    let s = uuid_text(r);
    assert(s =~= a + seq!['-'] + b + seq!['-', '4'] + c + seq!['-'] + d + seq!['-'] + e);
    // The variant digit is the top digit of `x`, which lies in 0x8000..0xc000.
    assert(d[0] == hex_digit(x / 16 / 16 / 16 % 16)) by {
        assert(d[0] == hex_fixed(x / 16, 3)[0]);
        assert(hex_fixed(x / 16, 3)[0] == hex_fixed(x / 16 / 16, 2)[0]);
        assert(hex_fixed(x / 16 / 16, 2)[0] == hex_fixed(x / 16 / 16 / 16, 1)[0]);
        assert(hex_fixed(x / 16 / 16 / 16, 0) =~= Seq::<char>::empty());
    }
    assert(8 <= x / 16 / 16 / 16 % 16 < 12);
    assert forall|i: int| 0 <= i < 36 implies {
        if i == 8 || i == 13 || i == 18 || i == 23 {
            #[trigger] s[i] == '-'
        } else if i == 14 {
            s[i] == '4'
        } else if i == 19 {
            s[i] == '8' || s[i] == '9' || s[i] == 'a' || s[i] == 'b'
        } else {
            is_lower_hex(s[i])
        }
    } by {
        if i < 8 {
            assert(s[i] == a[i]);
        } else if 8 < i < 13 {
            assert(s[i] == b[i - 9]);
        } else if 14 < i < 18 {
            assert(s[i] == c[i - 15]);
        } else if 19 < i < 23 {
            assert(s[i] == d[i - 19]);
        } else if 23 < i {
            assert(s[i] == e[i - 24]);
        }
    }
}

} // verus!
