//! The gem-market logic around the cache: the cache key a league's gem
//! listing is stored under, the filter that selects comparable gems, and
//! the outcome counts behind the expected-value calculation.

use vstd::prelude::*;
use vstd::string::StringExecFns;

verus! {

/// Query parameters of the gem listing route.
#[derive(Debug)]
pub struct SkillGemsQuery {
    pub league: Option<String>,
}

/// The cache key a league's gem listing is stored under.
pub fn skill_gems_cache_key(league: &str) -> (r: String)
    ensures
        r@ == "skillGems_"@ + league@,
{
    let mut s = "skillGems_".to_owned();
    s.append(league);
    s
}

/// Whether a listed gem enters the calculation, given the level and
/// quality asked for. The gem must match the level (an unlisted level
/// counts as level 1), match the quality (quality 0 admits an unlisted or
/// zero quality), be corrupted exactly when the asked-for level or quality
/// lies past 20, and carry a trade filter.
pub open spec fn gem_matches_spec(
    gem_level: Option<u32>,
    gem_quality: Option<u32>,
    corrupted: Option<bool>,
    has_trade_filter: bool,
    want_level: u32,
    want_quality: u32,
) -> bool {
    let matches_level = gem_level == Some(want_level) || (want_level == 1 && gem_level is None);
    let matches_quality = if want_quality == 0 {
        gem_quality is None || gem_quality == Some(0u32)
    } else {
        gem_quality == Some(want_quality)
    };
    let matches_corruption = if want_level > 20 || want_quality > 20 {
        corrupted == Some(true)
    } else {
        corrupted is None || corrupted == Some(false)
    };
    has_trade_filter && matches_level && matches_quality && matches_corruption
}

/// Whether a listed gem enters the calculation.
pub fn gem_matches_filter(
    gem_level: Option<u32>,
    gem_quality: Option<u32>,
    corrupted: Option<bool>,
    has_trade_filter: bool,
    want_level: u32,
    want_quality: u32,
) -> (r: bool)
    ensures
        r == gem_matches_spec(
            gem_level,
            gem_quality,
            corrupted,
            has_trade_filter,
            want_level,
            want_quality,
        ),
{
    let matches_level = match gem_level {
        Some(l) => l == want_level,
        None => want_level == 1,
    };
    let matches_quality = if want_quality == 0 {
        match gem_quality {
            None => true,
            Some(q) => q == 0,
        }
    } else {
        match gem_quality {
            Some(q) => q == want_quality,
            None => false,
        }
    };
    let matches_corruption = if want_level > 20 || want_quality > 20 {
        match corrupted {
            Some(c) => c,
            None => false,
        }
    } else {
        match corrupted {
            None => true,
            Some(c) => !c,
        }
    };
    has_trade_filter && matches_level && matches_quality && matches_corruption
}

/// With `n` gems in a color, three random picks have `n·(n-1)·(n-2)/6`
/// equally likely outcomes.
pub open spec fn total_outcomes_spec(n: int) -> int {
    n * (n - 1) * (n - 2) / 6
}

/// Of those outcomes, `(i-1)·(i-2)/2` leave the `i`-th cheapest gem as the
/// best of the three.
pub open spec fn favorable_outcomes_spec(i: int) -> int {
    (i - 1) * (i - 2) / 2
}

/// The number of three-pick outcomes over `n` gems; zero where fewer than
/// three gems are listed.
pub fn total_outcome_count(n: usize) -> (r: u64)
    requires
        n <= 2_000_000,
    ensures
        n >= 3 ==> r as int == total_outcomes_spec(n as int),
        n < 3 ==> r == 0,
{
    if n < 3 {
        return 0;
    }
    let nn = n as u64;
    proof {
        assert(nn * (nn - 1) <= 2_000_000u64 * 2_000_000u64) by (nonlinear_arith)
            requires
                3 <= nn <= 2_000_000u64,
        ;
        assert(nn * (nn - 1) * (nn - 2) <= 2_000_000u64 * 2_000_000u64 * 2_000_000u64)
            by (nonlinear_arith)
            requires
                3 <= nn <= 2_000_000u64,
        ;
    }
    nn * (nn - 1) * (nn - 2) / 6
}

/// The favorable-outcome count for each gem, best first: the entry at
/// index `j` belongs to the `(n-j)`-th cheapest gem, counting down to the
/// third. Empty where fewer than three gems are listed.
pub fn favorable_outcome_counts(n: usize) -> (r: Vec<u64>)
    requires
        n <= 2_000_000,
    ensures
        n < 3 ==> r@.len() == 0,
        n >= 3 ==> r@.len() == n - 2,
        forall|j: int|
            0 <= j < r@.len() ==> #[trigger] r@[j] as int == favorable_outcomes_spec(n - j),
{
    let mut r: Vec<u64> = Vec::new();
    if n < 3 {
        return r;
    }
    let mut i: usize = n;
    while i >= 3
        invariant
            2 <= i <= n <= 2_000_000,
            r@.len() == n - i,
            forall|j: int|
                0 <= j < r@.len() ==> #[trigger] r@[j] as int == favorable_outcomes_spec(n - j),
        decreases i,
    {
        let iu = i as u64;
        proof {
            assert((iu - 1) * (iu - 2) <= 2_000_000u64 * 2_000_000u64) by (nonlinear_arith)
                requires
                    3 <= iu <= 2_000_000u64,
            ;
        }
        r.push((iu - 1) * (iu - 2) / 2);
        i = i - 1;
    }
    r
}

} // verus!
