//! Arithmetic of the periodic resync: which frames are followed by one, and
//! which frame an audio position stands for.

use vstd::arithmetic::div_mod::{
    lemma_div_is_ordered, lemma_fundamental_div_mod, lemma_fundamental_div_mod_converse,
    lemma_mod_bound,
};
use vstd::prelude::*;

verus! {

/// Number of frames from one resync to the next.
pub const RESYNC_INTERVAL: usize = 15;

/// Whether the frame at `index` is followed by a resync: every multiple of the
/// interval is, zero included.
pub open spec fn resync_due(index: nat) -> bool {
    index % (RESYNC_INTERVAL as nat) == 0
}

/// The integer nearest to `num / den`, a half rounded up. Meant for `den > 0`.
pub open spec fn round_div(num: nat, den: nat) -> nat {
    (2 * num + den) / (2 * den)
}

/// The frame that an audio position stands for: `round(position / total * length)`,
/// capped at the largest index that the machine can hold.
///
/// A track of no length has no ratio to take. A reading at its very start, or
/// one for an empty store, stays on frame 0; any other lies past every frame.
pub open spec fn nearest_index(position: nat, total: nat, length: nat) -> nat {
    if total == 0 {
        if position == 0 || length == 0 {
            0
        } else {
            usize::MAX as nat
        }
    } else if round_div(position * length, total) > usize::MAX {
        usize::MAX as nat
    } else {
        round_div(position * length, total)
    }
}

/// How many more frames are shown after the one at `index` before a resync
/// comes: none if that frame is itself followed by one.
pub open spec fn frames_to_resync(index: nat) -> nat {
    ((RESYNC_INTERVAL - index % (RESYNC_INTERVAL as nat)) % (RESYNC_INTERVAL as int)) as nat
}

/// A resync is never more than an interval away: from any frame on, fewer
/// than `RESYNC_INTERVAL` further frames go by until one is due, and that
/// count is exact.
pub proof fn law_resync_within_interval(index: nat)
    ensures
        frames_to_resync(index) < RESYNC_INTERVAL,
        resync_due(index + frames_to_resync(index)),
        forall|between: nat|
            index <= between < index + frames_to_resync(index) ==> !#[trigger] resync_due(between),
{
}

/// The largest index that the machine can hold is a multiple of the interval,
/// whichever of its two widths the machine has: the step from any other index
/// to the next one stays within the machine's range.
pub proof fn lemma_last_index_is_resync()
    ensures
        resync_due(usize::MAX as nat),
{
    assert(usize::MAX == 0xffff_ffff || usize::MAX == 0xffff_ffff_ffff_ffff);
}

/// Decides whether the frame at `index` is followed by a resync.
pub fn is_resync_index(index: usize) -> (due: bool)
    ensures
        due == resync_due(index as nat),
{
    index % RESYNC_INTERVAL == 0
}

/// Splitting `num` by `den` into quotient and remainder settles the rounding:
/// the quotient goes up by one exactly when the remainder is at least half of `den`.
pub proof fn lemma_round_div_by_parts(num: nat, den: nat)
    requires
        den > 0,
    ensures
        round_div(num, den) == num / den + if 2 * (num % den) >= den {
            1nat
        } else {
            0nat
        },
{
    let n: int = num as int;
    let d: int = den as int;
    let q: int = n / d;
    let r: int = n % d;
    lemma_fundamental_div_mod(n, d);
    lemma_mod_bound(n, d);
    assert(n == d * q + r);
    if 2 * r >= d {
        assert(2 * n + d == (q + 1) * (2 * d) + (2 * r - d)) by (nonlinear_arith)
            requires
                n == d * q + r,
        ;
        lemma_fundamental_div_mod_converse(2 * n + d, 2 * d, q + 1, 2 * r - d);
    } else {
        assert(2 * n + d == q * (2 * d) + (2 * r + d)) by (nonlinear_arith)
            requires
                n == d * q + r,
        ;
        lemma_fundamental_div_mod_converse(2 * n + d, 2 * d, q, 2 * r + d);
    }
}

/// A position inside the track never maps past the end of the frame store.
pub proof fn lemma_position_within_store(position: nat, total: nat, length: nat)
    requires
        position <= total,
    ensures
        nearest_index(position, total, length) <= length,
{
    if total > 0 {
        let p: int = position as int;
        let t: int = total as int;
        let n: int = length as int;
        assert(p * n <= t * n) by (nonlinear_arith)
            requires
                p <= t,
                n >= 0,
        ;
        assert(2 * (t * n) + t == n * (2 * t) + t) by (nonlinear_arith);
        lemma_fundamental_div_mod_converse(2 * (t * n) + t, 2 * t, n, t);
        lemma_div_is_ordered(2 * (p * n) + t, 2 * (t * n) + t, 2 * t);
    }
}

/// The start of a track of positive length is frame 0 and its end is the end of
/// the store, as far as the machine can count.
pub proof fn law_track_ends(total: nat, length: nat)
    requires
        total > 0,
        length <= usize::MAX,
    ensures
        nearest_index(0, total, length) == 0,
        nearest_index(total, total, length) == length,
{
    let t: int = total as int;
    let n: int = length as int;
    assert(0 * n == 0) by (nonlinear_arith);
    lemma_fundamental_div_mod_converse(2 * (0 * n) + t, 2 * t, 0, t);
    assert(2 * (t * n) + t == n * (2 * t) + t) by (nonlinear_arith);
    lemma_fundamental_div_mod_converse(2 * (t * n) + t, 2 * t, n, t);
}

/// A later position never maps to an earlier frame.
pub proof fn law_later_position_later_frame(earlier: nat, later: nat, total: nat, length: nat)
    requires
        earlier <= later,
        total > 0,
    ensures
        nearest_index(earlier, total, length) <= nearest_index(later, total, length),
{
    let e: int = earlier as int;
    let l: int = later as int;
    let t: int = total as int;
    let n: int = length as int;
    assert(e * n <= l * n) by (nonlinear_arith)
        requires
            e <= l,
            n >= 0,
    ;
    lemma_div_is_ordered(2 * (e * n) + t, 2 * (l * n) + t, 2 * t);
}

/// Computes the frame that an audio position stands for. `position` and `total`
/// are in one unit, whichever it is.
pub fn position_index(position: u64, total: u64, length: usize) -> (index: usize)
    ensures
        index == nearest_index(position as nat, total as nat, length as nat),
{
    if total == 0 {
        if position == 0 || length == 0 {
            0
        } else {
            usize::MAX
        }
    } else {
        assert(position * length <= 0xffff_ffff_ffff_ffff * 0xffff_ffff_ffff_ffff)
            by (nonlinear_arith)
            requires
                position <= 0xffff_ffff_ffff_ffff,
                length <= 0xffff_ffff_ffff_ffff,
        ;
        let product: u128 = (position as u128) * (length as u128);
        let whole: u128 = product / (total as u128);
        let rest: u128 = product % (total as u128);
        proof {
            lemma_round_div_by_parts(product as nat, total as nat);
            lemma_fundamental_div_mod(product as int, total as int);
            assert(whole <= product) by (nonlinear_arith)
                requires
                    product == total * whole + rest,
                    total >= 1,
                    rest >= 0,
                    whole >= 0,
            ;
        }
        let rounded: u128 = if rest >= (total as u128) - rest {
            whole + 1
        } else {
            whole
        };
        if rounded > usize::MAX as u128 {
            usize::MAX
        } else {
            rounded as usize
        }
    }
}

} // verus!
