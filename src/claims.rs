//! The identity claim a token carries, as jwt writes it for a claim with one integer field:
//! the JSON object `{"id":N}`, with the id in canonical decimal, as bytes.

use vstd::prelude::*;

verus! {

/// The ASCII byte of a decimal digit.
pub open spec fn digit_byte(d: nat) -> u8 {
    (48 + d) as u8
}

/// The decimal digits of `n`, most significant first, without leading zeros.
pub open spec fn nat_digits(n: nat) -> Seq<u8>
    decreases n,
{
    if n < 10 {
        seq![digit_byte(n)]
    } else {
        nat_digits(n / 10).push(digit_byte(n % 10))
    }
}

/// The decimal text of `id`.
pub open spec fn claim_text(id: int) -> Seq<u8> {
    if id < 0 {
        seq![45u8] + nat_digits((-id) as nat)
    } else {
        nat_digits(id as nat)
    }
}

/// `{"id":`, the bytes before the id.
pub open spec fn json_prefix() -> Seq<u8> {
    seq![123u8, 34u8, 105u8, 100u8, 34u8, 58u8]
}

/// The JSON claim for `id`: `{"id":N}`.
pub open spec fn claim_json(id: int) -> Seq<u8> {
    json_prefix() + claim_text(id) + seq![125u8]
}

fn append_digits(v: &mut Vec<u8>, n: u32)
    ensures
        final(v)@ == old(v)@ + nat_digits(n as nat),
    decreases n,
{
    if n >= 10 {
        append_digits(v, n / 10);
    }
    v.push((48 + n % 10) as u8);
    proof {
        if n >= 10 {
            assert(old(v)@ + nat_digits(n as nat) =~= old(v)@ + nat_digits((n / 10) as nat) + seq![digit_byte((n % 10) as nat)]);
        } else {
            assert(n % 10 == n);
            assert(old(v)@ + nat_digits(n as nat) =~= old(v)@.push(digit_byte(n as nat)));
        }
    }
}

fn append_decimal(v: &mut Vec<u8>, id: i32)
    ensures
        final(v)@ == old(v)@ + claim_text(id as int),
{
    if id < 0 {
        v.push(45u8);
        let m = (0i64 - id as i64) as u32;
        append_digits(v, m);
        proof {
            assert(final(v)@ =~= old(v)@ + claim_text(id as int));
        }
    } else {
        append_digits(v, id as u32);
    }
}

/// The JSON claim for `id`.
pub fn encode_claim(id: i32) -> (r: Vec<u8>)
    ensures
        r@ == claim_json(id as int),
{
    let mut v: Vec<u8> = Vec::new();
    v.push(123u8);
    v.push(34u8);
    v.push(105u8);
    v.push(100u8);
    v.push(34u8);
    v.push(58u8);
    append_decimal(&mut v, id);
    v.push(125u8);
    assert(v@ =~= claim_json(id as int));
    v
}

} // verus!
