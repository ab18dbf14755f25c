//! The variable-length integer codec used as the wire protocol's length
//! prefix: groups of seven bits, least-significant group first, the high bit
//! of each byte set when another group follows. At most five groups are
//! accepted, so decoded values fit in 32 bits (the fifth group is truncated
//! to the low 32 bits, as the accumulating shift discards the rest).

use vstd::prelude::*;

verus! {

/// Why a buffer failed to decode as a length-prefix integer.
#[derive(Debug, Clone, Copy, PartialEq, Eq, Structural)]
pub enum VarIntError {
    /// The buffer ended before a byte with the continuation bit clear.
    Incomplete,
    /// More than five seven-bit groups were consumed.
    TooLarge,
}

/// Mathematical decoding of a buffer's leading varint with `budget` groups
/// still allowed: the untruncated value and the number of bytes consumed.
pub open spec fn spec_decode(s: Seq<u8>, budget: nat) -> Result<(nat, nat), VarIntError>
    decreases s.len(),
{
    if s.len() == 0 {
        Err(VarIntError::Incomplete)
    } else {
        let b = s[0];
        if b & 0x80 == 0 {
            Ok(((b & 0x7f) as nat, 1))
        } else if budget <= 1 {
            Err(VarIntError::TooLarge)
        } else {
            match spec_decode(s.skip(1), (budget - 1) as nat) {
                Ok(p) => Ok((((b & 0x7f) + 128 * p.0) as nat, (p.1 + 1) as nat)),
                Err(e) => Err(e),
            }
        }
    }
}

/// `budget` seven-bit groups can hold values below `128^budget`.
pub open spec fn group_limit(budget: nat) -> nat
    decreases budget,
{
    if budget == 0 {
        1
    } else {
        128 * group_limit((budget - 1) as nat)
    }
}

/// A successful decode consumes between one byte and the whole buffer, and
/// its untruncated value stays under the group limit.
pub proof fn lemma_decode_bounds(s: Seq<u8>, budget: nat)
    requires
        budget >= 1,
        spec_decode(s, budget) is Ok,
    ensures
        1 <= spec_decode(s, budget).unwrap().1 <= s.len(),
        spec_decode(s, budget).unwrap().0 < group_limit(budget),
    decreases s.len(),
{
    let b = s[0];
    assert((b & 0x7f) < 128) by (bit_vector);
    if b & 0x80 == 0 {
        assert(group_limit(budget) >= 128) by {
            reveal_with_fuel(group_limit, 2);
            lemma_group_limit_grows(1, budget);
        }
    } else {
        lemma_decode_bounds(s.skip(1), (budget - 1) as nat);
    }
}

/// The group limit grows with the budget.
pub proof fn lemma_group_limit_grows(a: nat, b: nat)
    requires
        a <= b,
    ensures
        group_limit(a) <= group_limit(b),
    decreases b,
{
    if a < b {
        lemma_group_limit_grows(a, (b - 1) as nat);
    }
}

/// Decodes the varint at `pos`, returning the untruncated value and the
/// number of bytes consumed. Mirrors `spec_decode` on the buffer's tail.
fn decode_from(bytes: &[u8], pos: usize, budget: u32) -> (r: Result<(u64, usize), VarIntError>)
    requires
        pos <= bytes@.len(),
        1 <= budget <= 5,
    ensures
        ({
            let d = spec_decode(bytes@.skip(pos as int), budget as nat);
            match r {
                Ok(p) => d == Ok::<(nat, nat), VarIntError>((p.0 as nat, p.1 as nat)),
                Err(e) => d == Err::<(nat, nat), VarIntError>(e),
            }
        }),
    decreases bytes@.len() - pos,
{
    let ghost tail = bytes@.skip(pos as int);
    if pos == bytes.len() {
        assert(tail.len() == 0);
        return Err(VarIntError::Incomplete);
    }
    let b = bytes[pos];
    assert(tail[0] == bytes@[pos as int]);
    let low: u64 = (b & 0x7f) as u64;
    if b & 0x80 == 0 {
        Ok((low, 1))
    } else if budget <= 1 {
        Err(VarIntError::TooLarge)
    } else {
        assert(tail.skip(1) =~= bytes@.skip(pos as int + 1));
        match decode_from(bytes, pos + 1, budget - 1) {
            Ok((v, n)) => {
                proof {
                    lemma_decode_bounds(bytes@.skip(pos as int + 1), (budget - 1) as nat);
                    lemma_group_limit_grows((budget - 1) as nat, 4);
                    reveal_with_fuel(group_limit, 6);
                    assert(group_limit(4) < 0x100000000);
                }
                Ok((low + 128 * v, n + 1))
            }
            Err(e) => Err(e),
        }
    }
}

/// Decodes the varint at the start of `bytes`: the value (truncated to its
/// low 32 bits, read as a signed 32-bit integer) and the bytes consumed.
/// Fails with `Incomplete` when the buffer ends before a terminating byte,
/// and with `TooLarge` when a sixth group would be needed.
pub fn read_varint(bytes: &[u8]) -> (r: Result<(i32, usize), VarIntError>)
    ensures
        ({
            let d = spec_decode(bytes@, 5);
            match r {
                Ok(p) => {
                    &&& d is Ok
                    &&& (#[verifier::truncate] (p.0 as u32)) as nat == d.unwrap().0 % 0x100000000
                    &&& p.1 as nat == d.unwrap().1
                }
                Err(e) => d == Err::<(nat, nat), VarIntError>(e),
            }
        }),
        ({
            let d = spec_decode(bytes@, 5);
            d matches Ok(q) ==> (q.0 < 0x80000000 ==> r == Ok::<(i32, usize), VarIntError>(
                (q.0 as i32, q.1 as usize),
            ))
        }),
{
    assert(bytes@.skip(0) =~= bytes@);
    match decode_from(bytes, 0, 5) {
        Ok((v, n)) => {
            proof {
                lemma_decode_bounds(bytes@, 5);
                reveal_with_fuel(group_limit, 6);
                assert(group_limit(5) == 0x800000000);
            }
            let low: u32 = #[verifier::truncate] (v as u32);
            assert(low as u64 == v % 0x100000000) by (bit_vector)
                requires
                    low == #[verifier::truncate] (v as u32),
            ;
            let value: i32 = #[verifier::truncate] (low as i32);
            assert(value as u32 == low) by (bit_vector)
                requires
                    value == #[verifier::truncate] (low as i32),
            ;
            assert(v < 0x80000000 ==> value == v as i32) by (bit_vector)
                requires
                    low == #[verifier::truncate] (v as u32),
                    value == #[verifier::truncate] (low as i32),
            ;
            Ok((value, n))
        }
        Err(e) => Err(e),
    }
}

/// Mathematical encoding of a value: its seven-bit groups, least-significant
/// first, with the continuation bit on every byte but the last.
pub open spec fn spec_encode(v: nat) -> Seq<u8>
    decreases v,
{
    if v < 128 {
        seq![v as u8]
    } else {
        seq![(v % 128 + 128) as u8] + spec_encode(v / 128)
    }
}

/// Encodes a value in the varint format.
pub fn write_varint(value: u32) -> (r: Vec<u8>)
    ensures
        r@ == spec_encode(value as nat),
{
    let mut out: Vec<u8> = Vec::new();
    let mut rest: u32 = value;
    while rest >= 128
        invariant
            spec_encode(value as nat) == out@ + spec_encode(rest as nat),
        decreases rest,
    {
        let b: u8 = ((rest % 128) + 128) as u8;
        proof {
            assert(spec_encode(rest as nat) == seq![b] + spec_encode(rest as nat / 128));
            assert(out@ + (seq![b] + spec_encode(rest as nat / 128)) =~= out@.push(b)
                + spec_encode(rest as nat / 128));
        }
        out.push(b);
        rest = rest / 128;
    }
    proof {
        assert(spec_encode(rest as nat) == seq![rest as u8]);
        assert(out@ + seq![rest as u8] =~= out@.push(rest as u8));
    }
    out.push(rest as u8);
    out
}

/// Decoding an encoding returns the value and the exact byte count, as long
/// as the value fits the allowed number of groups.
pub proof fn lemma_decode_encode(v: nat, budget: nat)
    requires
        1 <= budget,
        v < group_limit(budget),
    ensures
        spec_decode(spec_encode(v), budget) == Ok::<(nat, nat), VarIntError>(
            (v, spec_encode(v).len()),
        ),
    decreases v,
{
    vstd::arithmetic::div_mod::lemma_fundamental_div_mod(v as int, 128);
    if v < 128 {
        let b = v as u8;
        assert(b < 128 ==> b & 0x80 == 0 && (b & 0x7f) == b) by (bit_vector);
    } else {
        let b = (v % 128 + 128) as u8;
        assert(b & 0x80 != 0 && (b & 0x7f) == b % 128) by (bit_vector)
            requires
                b >= 128,
        ;
        assert((b & 0x7f) as nat == v % 128);
        let s = spec_encode(v);
        assert(s[0] == b);
        assert(s.skip(1) =~= spec_encode(v / 128));
        assert(budget >= 2) by {
            reveal_with_fuel(group_limit, 2);
        }
        assert(v / 128 < group_limit((budget - 1) as nat)) by {
            vstd::arithmetic::div_mod::lemma_div_is_ordered_by_denominator(v as int, 1, 128);
        }
        lemma_decode_encode(v / 128, (budget - 1) as nat);
    }
}

/// Every value an i32 can carry as a nonnegative number survives a round
/// trip: encoding then decoding with the five-group limit returns the value
/// and the full length of the encoding.
pub proof fn lemma_varint_round_trip(v: nat)
    requires
        v < 0x80000000,
    ensures
        spec_decode(spec_encode(v), 5) == Ok::<(nat, nat), VarIntError>(
            (v, spec_encode(v).len()),
        ),
{
    assert(group_limit(5) == 0x800000000) by {
        reveal_with_fuel(group_limit, 6);
    }
    lemma_decode_encode(v, 5);
}

/// Decoding reads only the bytes it consumes: whatever follows a complete
/// varint leaves its value and length untouched.
pub proof fn lemma_decode_extend(s: Seq<u8>, t: Seq<u8>, budget: nat)
    requires
        spec_decode(s, budget) is Ok,
    ensures
        spec_decode(s + t, budget) == spec_decode(s, budget),
    decreases s.len(),
{
    assert((s + t)[0] == s[0]);
    let b = s[0];
    if b & 0x80 == 0 {
    } else {
        assert((s + t).skip(1) =~= s.skip(1) + t);
        lemma_decode_extend(s.skip(1), t, (budget - 1) as nat);
    }
}

/// A buffer made only of continuation bytes, too short to exhaust the group
/// budget, is an incomplete varint.
pub proof fn lemma_all_continuation_incomplete(s: Seq<u8>, budget: nat)
    requires
        s.len() < budget,
        forall|i: int| 0 <= i < s.len() ==> s[i] & 0x80 != 0,
    ensures
        spec_decode(s, budget) == Err::<(nat, nat), VarIntError>(VarIntError::Incomplete),
    decreases s.len(),
{
    if s.len() > 0 {
        lemma_all_continuation_incomplete(s.skip(1), (budget - 1) as nat);
    }
}

/// A buffer whose first bytes all carry the continuation bit, as many as the
/// group budget allows, decodes to too-large whatever follows.
pub proof fn lemma_continuations_too_large(s: Seq<u8>, budget: nat)
    requires
        1 <= budget <= s.len(),
        forall|i: int| 0 <= i < budget ==> s[i] & 0x80 != 0,
    ensures
        spec_decode(s, budget) == Err::<(nat, nat), VarIntError>(VarIntError::TooLarge),
    decreases budget,
{
    assert(s[0] & 0x80 != 0);
    if budget > 1 {
        assert forall|i: int| 0 <= i < budget - 1 implies s.skip(1)[i] & 0x80 != 0 by {
            assert(s.skip(1)[i] == s[i + 1]);
        }
        lemma_continuations_too_large(s.skip(1), (budget - 1) as nat);
    }
}

} // verus!
