//! Little-endian base-128 variable-length unsigned integer ("varint")
//! decoding.
//!
//! Each byte contributes its low 7 bits; the `i`-th byte consumed has place
//! value `128^i`.  Bit 7 of a byte set means more bytes follow; the first
//! byte with bit 7 clear ends the encoding.  A 32-bit value needs at most
//! five bytes, so a fifth byte that still has its continuation bit set is
//! malformed rather than a longer read.

use vstd::arithmetic::div_mod::{
    lemma_fundamental_div_mod, lemma_mod_multiples_vanish, lemma_small_mod,
};
use vstd::prelude::*;

use crate::error::ParseError;

verus! {

/// Whether byte `b` has its continuation bit (bit 7) set.
pub open spec fn has_more(b: u8) -> bool {
    b & 0x80 != 0
}

/// The 7-bit value group carried by byte `b`.
pub open spec fn group_val(b: u8) -> nat {
    (b & 0x7f) as nat
}

/// `128^n`: the place value of the `n`-th varint byte.
pub open spec fn pow128(n: nat) -> nat
    decreases n,
{
    if n == 0 {
        1
    } else {
        128 * pow128((n - 1) as nat)
    }
}

/// The unsigned value of the group sequence `s`, least-significant group
/// first: the `i`-th byte contributes `group_val(s[i]) * 128^i`.
pub open spec fn varint_nat(s: Seq<u8>) -> nat
    decreases s.len(),
{
    if s.len() == 0 {
        0
    } else {
        group_val(s[0]) + 128 * varint_nat(s.drop_first())
    }
}

/// How many bytes a varint read over `s` consumes, scanning from byte
/// index `i`: the terminating byte (continuation bit clear) must arrive
/// within the first five bytes.  Running out of input first is
/// `Incomplete`; a fifth byte that still continues is `Malformed`.
pub open spec fn varint_used_from(s: Seq<u8>, i: int) -> Result<int, ParseError>
    decreases 5 - i,
{
    if i >= 5 {
        Err(ParseError::Malformed)
    } else if i >= s.len() {
        Err(ParseError::Incomplete)
    } else if !has_more(s[i]) {
        Ok(i + 1)
    } else {
        varint_used_from(s, i + 1)
    }
}

/// What a varint read at the front of `s` yields: the decoded value,
/// truncated to 32 bits, and the number of bytes consumed.
pub open spec fn spec_varint(s: Seq<u8>) -> Result<(u32, int), ParseError> {
    match varint_used_from(s, 0) {
        Ok(n) => Ok(((varint_nat(s.take(n)) % 0x1_0000_0000) as u32, n)),
        Err(e) => Err(e),
    }
}

proof fn lemma_pow128_values()
    ensures
        pow128(0) == 1,
        pow128(1) == 0x80,
        pow128(2) == 0x4000,
        pow128(3) == 0x20_0000,
        pow128(4) == 0x1000_0000,
{
    reveal_with_fuel(pow128, 5);
}

/// The value of a group sequence is below the place value of the byte one
/// past its end.
proof fn lemma_varint_nat_bound(s: Seq<u8>)
    ensures
        varint_nat(s) < pow128(s.len()),
    decreases s.len(),
{
    if s.len() == 0 {
    } else {
        lemma_varint_nat_bound(s.drop_first());
        let b: u8 = s[0];
        assert(b & 0x7f < 128) by (bit_vector);
        assert(pow128(s.len()) == 128 * pow128(s.drop_first().len()));
    }
}

/// Extending a prefix by one byte adds that byte's group at its place value.
proof fn lemma_varint_nat_snoc(s: Seq<u8>, i: int)
    requires
        0 <= i < s.len(),
    ensures
        varint_nat(s.take(i + 1)) == varint_nat(s.take(i)) + group_val(s[i]) * pow128(i as nat),
    decreases i,
{
    if i == 0 {
        assert(s.take(1).drop_first() =~= Seq::<u8>::empty());
        assert(s.take(0) =~= Seq::<u8>::empty());
        assert(s.take(1)[0] == s[0]);
        assert(varint_nat(s.take(1)) == group_val(s[0]) + 128 * varint_nat(s.take(1).drop_first()));
        assert(pow128(0) == 1);
        assert(group_val(s[0]) * 1 == group_val(s[0]));
    } else {
        lemma_varint_nat_snoc(s.drop_first(), i - 1);
        assert(s.take(i + 1).drop_first() =~= s.drop_first().take(i));
        assert(s.take(i).drop_first() =~= s.drop_first().take(i - 1));
        assert(s.take(i + 1)[0] == s[0]);
        assert(s.take(i)[0] == s[0]);
        assert(s.drop_first()[i - 1] == s[i]);
        let a: nat = varint_nat(s.drop_first().take(i - 1));
        let g: nat = group_val(s[i]);
        let p: nat = pow128((i - 1) as nat);
        assert(varint_nat(s.drop_first().take(i)) == a + g * p);
        assert(varint_nat(s.take(i + 1)) == group_val(s[0]) + 128 * varint_nat(
            s.drop_first().take(i),
        ));
        assert(varint_nat(s.take(i)) == group_val(s[0]) + 128 * varint_nat(
            s.drop_first().take(i - 1),
        ));
        assert(128 * (a + g * p) == 128 * a + g * (128 * p)) by (nonlinear_arith);
        assert(pow128(i as nat) == 128 * p);
    }
}

/// Reads one varint from the front of `input`.  On success returns the
/// decoded 32-bit value and how many bytes it occupied; otherwise says
/// whether the input ran out (`Incomplete`) or the encoding overran five
/// bytes (`Malformed`), exactly as [`spec_varint`] classifies it.
pub fn take_varint(input: &[u8]) -> (r: Result<(u32, usize), ParseError>)
    ensures
        (match r {
            Ok((v, n)) => spec_varint(input@) == Ok::<(u32, int), ParseError>((v, n as int)),
            Err(e) => spec_varint(input@) == Err::<(u32, int), ParseError>(e),
        }),
        r matches Ok((v, n)) ==> 1 <= n <= 5 && n <= input@.len(),
{
    let len: usize = input.len();
    let mut acc: u32 = 0;
    let mut mult: u32 = 1;
    let mut i: usize = 0;
    loop
        invariant
            i <= 4,
            i <= len,
            len == input@.len(),
            mult == pow128(i as nat),
            acc == varint_nat(input@.take(i as int)),
            forall|j: int| 0 <= j < i ==> has_more(input@[j]),
            varint_used_from(input@, 0) == varint_used_from(input@, i as int),
        decreases 5 - i,
    {
        proof {
            lemma_pow128_values();
            lemma_varint_nat_bound(input@.take(i as int));
        }
        if i >= len {
            return Err(ParseError::Incomplete);
        }
        let b: u8 = input[i];
        let g: u32 = (b & 0x7f) as u32;
        proof {
            assert(b & 0x7f < 128) by (bit_vector);
            lemma_varint_nat_snoc(input@, i as int);
        }
        if b & 0x80 == 0 {
            let v: u32;
            if i == 4 {
                proof {
                    assert(g & 0x0f == g % 16) by (bit_vector);
                    let a: int = acc as int;
                    let gi: int = g as int;
                    let q: int = gi / 16;
                    let rr: int = gi % 16;
                    lemma_fundamental_div_mod(gi, 16);
                    assert(gi * 0x1000_0000 == 0x1_0000_0000 * q + rr * 0x1000_0000)
                        by (nonlinear_arith)
                        requires
                            gi == 16 * q + rr,
                    ;
                    lemma_mod_multiples_vanish(q, a + rr * 0x1000_0000, 0x1_0000_0000);
                    lemma_small_mod((a + rr * 0x1000_0000) as nat, 0x1_0000_0000 as nat);
                }
                v = acc + (g & 0x0f) * 0x1000_0000;
            } else {
                proof {
                    assert(i == 0 || i == 1 || i == 2 || i == 3);
                    assert(g * mult <= 127 * 0x20_0000)
                        by (nonlinear_arith)
                        requires
                            g < 128,
                            mult <= 0x20_0000,
                    ;
                    lemma_varint_nat_bound(input@.take(i as int + 1));
                    assert(pow128((i as int + 1) as nat) <= 0x1000_0000);
                    lemma_small_mod(varint_nat(input@.take(i as int + 1)), 0x1_0000_0000 as nat);
                }
                v = acc + g * mult;
            }
            return Ok((v, i + 1));
        }
        if i == 4 {
            proof {
                assert(varint_used_from(input@, 4) == varint_used_from(input@, 5));
                assert(varint_used_from(input@, 5) == Err::<int, ParseError>(ParseError::Malformed));
            }
            return Err(ParseError::Malformed);
        }
        proof {
            assert(i == 0 || i == 1 || i == 2 || i == 3);
            assert(g * mult <= 127 * 0x20_0000)
                by (nonlinear_arith)
                requires
                    g < 128,
                    mult <= 0x20_0000,
            ;
            lemma_varint_nat_bound(input@.take(i as int + 1));
            assert(pow128((i + 1) as nat) == 128 * pow128(i as nat));
            assert(varint_used_from(input@, i as int) == varint_used_from(input@, i as int + 1));
        }
        acc = acc + g * mult;
        mult = mult * 128;
        i = i + 1;
    }
}

} // verus!
