//! Split-amount arithmetic and the helpers that turn host entropy into a
//! claim draw.
//!
//! The host supplies one random seed per transaction; callers read it once,
//! hand it in as bytes, and every computation on it is verified here.

use vstd::prelude::*;
use crate::errors::ContractError;
use vstd::arithmetic::div_mod::lemma_div_is_ordered;
use vstd::arithmetic::div_mod::lemma_div_is_ordered_by_denominator;
use vstd::arithmetic::div_mod::lemma_fundamental_div_mod;

verus! {

/// The value of a little-endian byte string.
pub open spec fn le_bytes_val(s: Seq<u8>) -> int
    decreases s.len(),
{
    if s.len() == 0 {
        0
    } else {
        s[0] + 256 * le_bytes_val(s.drop_first())
    }
}

/// 256 to the power `n`.
pub open spec fn pow256(n: nat) -> int
    decreases n,
{
    if n == 0 {
        1
    } else {
        256 * pow256((n - 1) as nat)
    }
}

/// A little-endian byte string of length `n` denotes less than `256^n`.
proof fn lemma_le_bytes_val_bound(s: Seq<u8>)
    ensures
        0 <= le_bytes_val(s) < pow256(s.len()),
    decreases s.len(),
{
    if s.len() > 0 {
        lemma_le_bytes_val_bound(s.drop_first());
    }
}

/// The default lower bound of a random share.
pub open spec fn min_sub_or_default(min_sub: Option<u128>) -> u128 {
    match min_sub {
        Some(m) => m,
        None => 1u128,
    }
}

/// The inclusive upper bound of one random share: every remaining claimant
/// can still receive `min_sub`, and no share exceeds twice the even share.
pub open spec fn random_sub_max(number: u128, split: u128, ms: u128) -> int {
    let headroom = number - ms * (split - 1);
    let twice_even = 2 * (number as int / split as int);
    if headroom <= twice_even {
        headroom
    } else {
        twice_even
    }
}

/// The share a random claim takes, as a function of the remaining balance,
/// the remaining split count, the lower bound and the draw.
pub open spec fn random_sub_spec(number: u128, split: u128, ms: u128, rand: u128) -> int {
    if split == 1 {
        number as int
    } else {
        ms + rand as int % (random_sub_max(number, split, ms) + 1 - ms)
    }
}

/// The fairness law of one random draw: a single remaining claimant takes
/// the whole balance; otherwise the share lies between the lower bound and
/// the inclusive maximum, which never exceeds twice the even share.
pub proof fn lemma_random_sub_bounds(number: u128, split: u128, ms: u128, rand: u128)
    requires
        split >= 1,
        ms >= 1,
        number as int >= split as int * ms as int,
    ensures
        split == 1 ==> random_sub_spec(number, split, ms, rand) == number,
        split > 1 ==> ms <= random_sub_spec(number, split, ms, rand)
            <= random_sub_max(number, split, ms),
        split > 1 ==> random_sub_max(number, split, ms)
            <= 2 * (number as int / split as int),
{
    if split > 1 {
        assert(ms * (split - 1) <= number && number - ms * (split - 1) >= ms
            && ms <= number as int / split as int) by (nonlinear_arith)
            requires
                split >= 2,
                ms >= 1,
                number >= split * ms,
        ;
        let bound = random_sub_max(number, split, ms) + 1 - ms;
        assert(bound >= 1);
        vstd::arithmetic::div_mod::lemma_mod_bound(rand as int, bound);
    }
}

/// Check that an operation arrived with an attached balance.
pub fn assert_zero_deposit(amount: u128) -> (r: Result<(), ContractError>)
    ensures
        r is Ok <==> amount > 0,
        r is Err ==> r == Result::<(), ContractError>::Err(ContractError::ZeroDeposit),
{
    if amount > 0 {
        Ok(())
    } else {
        Err(ContractError::ZeroDeposit)
    }
}

/// The even share: the remaining balance divided by the remaining count.
pub fn average_sub(number: u128, split: usize) -> (r: u128)
    requires
        split >= 1,
        number >= split,
    ensures
        r == number as int / split as int,
{
    let split128 = split as u128;
    number / split128
}

/// A draw from `[start, end)` taken from one random value.
pub fn gen_range(rand: u128, start: u128, end: u128) -> (r: u128)
    requires
        start < end,
    ensures
        r == start + rand as int % (end - start),
        start <= r < end,
{
    rand % (end - start) + start
}

/// The random share: `number` exactly when one claimant remains, otherwise a
/// draw from `[min_sub, random_sub_max]` inclusive.
pub fn random_sub(number: u128, split: usize, min_sub: Option<u128>, rand: u128) -> (r: u128)
    requires
        split >= 1,
        number >= split as int * min_sub_or_default(min_sub) as int,
    ensures
        r == random_sub_spec(number, split as u128, min_sub_or_default(min_sub), rand),
        split == 1 ==> r == number,
        split > 1 ==> min_sub_or_default(min_sub) <= r
            <= random_sub_max(number, split as u128, min_sub_or_default(min_sub)),
{
    let ms: u128 = match min_sub {
        Some(m) => m,
        None => 1,
    };
    let split128 = split as u128;
    if split128 == 1 {
        return number;
    }
    assert(ms * (split128 - 1) <= number && number - ms * (split128 - 1) >= ms) by (nonlinear_arith)
        requires
            split128 >= 2,
            number >= split128 * ms,
    ;
    let headroom = number - ms * (split128 - 1);
    proof {
        lemma_div_is_ordered_by_denominator(number as int, 2, split128 as int);
        lemma_fundamental_div_mod(number as int, 2);
        assert(u128::MAX as int / 2 * 2 < u128::MAX);
        lemma_div_is_ordered(number as int, u128::MAX as int, 2);
        assert(ms <= number as int / split128 as int) by (nonlinear_arith)
            requires
                split128 >= 2,
                number >= split128 * ms,
        ;
    }
    let twice_even = 2 * (number / split128);
    let max_sub = if headroom <= twice_even {
        headroom
    } else {
        twice_even
    };
    gen_range(rand, ms, max_sub + 1)
}

/// The first sixteen seed bytes read as a little-endian integer.
pub fn rand_u128(seed: &Vec<u8>) -> (r: u128)
    requires
        seed@.len() >= 16,
    ensures
        r == le_bytes_val(seed@.subrange(0, 16)),
{
    proof {
        assert(pow256(16) == 0x100000000000000000000000000000000) by {
            reveal_with_fuel(pow256, 17);
        }
    }
    let mut acc: u128 = 0;
    let mut i: usize = 16;
    while i > 0
        invariant
            seed@.len() >= 16,
            i <= 16,
            acc == le_bytes_val(seed@.subrange(i as int, 16)),
            0 <= acc < pow256((16 - i) as nat),
            pow256(16) == 0x100000000000000000000000000000000,
        decreases i,
    {
        let ghost prev = seed@.subrange(i as int, 16);
        proof {
            lemma_le_bytes_val_bound(prev);
            assert(pow256((16 - i + 1) as nat) == 256 * pow256((16 - i) as nat));
            assert(acc * 256 + 255 < pow256((16 - i + 1) as nat));
            assert(pow256((16 - i + 1) as nat) <= pow256(16)) by {
                lemma_pow256_increases((16 - i + 1) as nat, 16);
            }
        }
        acc = acc * 256 + seed[i - 1] as u128;
        i = i - 1;
        proof {
            let cur = seed@.subrange(i as int, 16);
            assert(cur.drop_first() =~= prev);
            assert(cur[0] == seed@[i as int]);
        }
    }
    proof {
        assert(seed@.subrange(0, 16) =~= seed@.subrange(0 as int, 16));
    }
    acc
}

/// `256^m <= 256^n` when `m <= n`.
proof fn lemma_pow256_increases(m: nat, n: nat)
    requires
        m <= n,
    ensures
        pow256(m) <= pow256(n),
        pow256(m) >= 1,
    decreases n,
{
    if n > 0 {
        if m == n {
            lemma_pow256_increases((n - 1) as nat, (n - 1) as nat);
        } else {
            lemma_pow256_increases(m, (n - 1) as nat);
        }
    }
}

} // verus!
