//! Waits that double with each failure.
use vstd::arithmetic::power2::{
    lemma2_to64, lemma_pow2_strictly_increases, lemma_pow2_unfold, pow2,
};
use vstd::prelude::*;

verus! {

/// The first wait, doubled as often as `doublings` says, up to the longest one.
pub open spec fn backoff(first: nat, doublings: nat, longest: nat) -> nat {
    let wait = first * pow2(doublings);
    if wait < longest {
        wait
    } else {
        longest
    }
}

/// Each wait is twice the one before, up to the longest, and none is shorter
/// than the one before.
pub proof fn law_backoff_doubles(first: nat, doublings: nat, longest: nat)
    ensures
        backoff(first, 0, longest) == if first < longest {
            first
        } else {
            longest
        },
        backoff(first, doublings + 1, longest) == ({
            let twice = 2 * backoff(first, doublings, longest);
            if twice < longest {
                twice
            } else {
                longest
            }
        }),
        backoff(first, doublings, longest) <= backoff(first, doublings + 1, longest) <= longest,
{
    lemma2_to64();
    lemma_pow2_unfold(doublings + 1);
    let p = pow2(doublings);
    assert(first * (2 * p) == 2 * (first * p)) by (nonlinear_arith);
}

/// The wait after as many doublings.
pub fn backoff_wait(first: u64, doublings: u32, longest: u64) -> (r: u64)
    ensures
        r == backoff(first as nat, doublings as nat, longest as nat),
{
    let mut wait: u64 = if first < longest {
        first
    } else {
        longest
    };
    let mut n: u32 = 0;
    proof {
        law_backoff_doubles(first as nat, 0, longest as nat);
    }
    while n < doublings && wait < longest
        invariant
            n <= doublings,
            wait == backoff(first as nat, n as nat, longest as nat),
        decreases doublings - n,
    {
        proof {
            law_backoff_doubles(first as nat, n as nat, longest as nat);
        }
        wait = if wait > longest / 2 {
            longest
        } else {
            wait * 2
        };
        n = n + 1;
    }
    proof {
        if n < doublings {
            lemma_pow2_strictly_increases(n as nat, doublings as nat);
            assert(first * pow2(n as nat) <= first * pow2(doublings as nat)) by (nonlinear_arith)
                requires
                    pow2(n as nat) < pow2(doublings as nat),
            ;
        }
    }
    wait
}

} // verus!
