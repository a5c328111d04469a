//! Presentation-order sorting of the fleet and its statistics, and the
//! win/loss/capital aggregation over persisted daily rows.

use vstd::prelude::*;
use vstd::string::StringSliceAdditionalSpecFns;
use vstd::utf8::encode_utf8;
use crate::bot::{Bot, INITIAL_CAPITAL};
use crate::models::{BotStatistic, StatisticResult};

verus! {

/// A bot's worth for display: idle capital plus capital at risk.
pub open spec fn spec_equity(b: Bot) -> int {
    b.capital + b.order_capital
}

/// Display order of the fleet: active bots first, richer first among
/// equals, faster timeframe first among those.
pub open spec fn spec_bot_le(a: Bot, b: Bot) -> bool {
    if a.is_not_active != b.is_not_active {
        !a.is_not_active
    } else if spec_equity(a) != spec_equity(b) {
        spec_equity(a) > spec_equity(b)
    } else {
        a.timeframe.spec_index() <= b.timeframe.spec_index()
    }
}

/// Display order of the fleet, executably.
fn bot_le(a: &Bot, b: &Bot) -> (r: bool)
    ensures
        r == spec_bot_le(*a, *b),
{
    let ea: i128 = (a.capital as i128) + (a.order_capital as i128);
    let eb: i128 = (b.capital as i128) + (b.order_capital as i128);
    if a.is_not_active != b.is_not_active {
        !a.is_not_active
    } else if ea != eb {
        ea > eb
    } else {
        a.timeframe.index() <= b.timeframe.index()
    }
}

/// Sort the fleet for display: the same bots, ordered by active status,
/// then equity descending, then timeframe.
pub fn sort_bots(bots: &mut Vec<Bot>)
    ensures
        final(bots)@.len() == old(bots)@.len(),
        forall|i: int, j: int|
            0 <= i < j < final(bots)@.len() ==> spec_bot_le(
                #[trigger] final(bots)@[i],
                #[trigger] final(bots)@[j],
            ),
        final(bots)@.to_multiset() == old(bots)@.to_multiset(),
{
    let mut out: Vec<Bot> = Vec::new();
    proof {
        out@.to_multiset_ensures();
        bots@.to_multiset_ensures();
        assert(out@.to_multiset().add(bots@.to_multiset()) =~= old(bots)@.to_multiset());
    }
    while bots.len() > 0
        invariant
            out@.len() + bots@.len() == old(bots)@.len(),
            out@.to_multiset().add(bots@.to_multiset()) == old(bots)@.to_multiset(),
            forall|i: int, j: int|
                0 <= i < j < out@.len() ==> spec_bot_le(#[trigger] out@[i], #[trigger] out@[j]),
            forall|i: int, j: int|
                0 <= i < out@.len() && 0 <= j < bots@.len() ==> spec_bot_le(
                    #[trigger] out@[i],
                    #[trigger] bots@[j],
                ),
        decreases bots@.len(),
    {
        let mut mi: usize = 0;
        let mut k: usize = 1;
        while k < bots.len()
            invariant
                mi < k <= bots@.len(),
                bots@.len() > 0,
                forall|l: int| 0 <= l < k ==> spec_bot_le(bots@[mi as int], #[trigger] bots@[l]),
            decreases bots@.len() - k,
        {
            if bot_le(&bots[k], &bots[mi]) {
                mi = k;
            }
            k += 1;
        }
        let ghost pre_bots = bots@;
        let ghost pre_out = out@;
        let b = bots.remove(mi);
        out.push(b);
        proof {
            pre_bots.to_multiset_ensures();
            pre_out.to_multiset_ensures();
            assert(pre_bots.to_multiset().contains(b));
            assert(out@.to_multiset().add(bots@.to_multiset()) =~= pre_out.to_multiset().add(
                pre_bots.to_multiset(),
            ));
            assert forall|i: int, j: int|
                0 <= i < out@.len() && 0 <= j < bots@.len() implies spec_bot_le(
                #[trigger] out@[i],
                #[trigger] bots@[j],
            ) by {
                assert(bots@[j] == pre_bots[if j < mi {
                    j
                } else {
                    j + 1
                }]);
            }
        }
    }
    proof {
        bots@.to_multiset_ensures();
        vstd::multiset::lemma_multiset_empty_len(bots@.to_multiset());
        assert(out@.to_multiset().add(bots@.to_multiset()) =~= out@.to_multiset());
    }
    *bots = out;
}

/// Byte-lexicographic order on names.
pub open spec fn spec_bytes_le(a: Seq<u8>, b: Seq<u8>) -> bool
    decreases a.len(),
{
    if a.len() == 0 {
        true
    } else if b.len() == 0 {
        false
    } else if a[0] != b[0] {
        a[0] < b[0]
    } else {
        spec_bytes_le(a.drop_first(), b.drop_first())
    }
}

/// Byte-lexicographic order is total.
pub proof fn lemma_bytes_le_total(a: Seq<u8>, b: Seq<u8>)
    ensures
        spec_bytes_le(a, b) || spec_bytes_le(b, a),
    decreases a.len(),
{
    if a.len() == 0 || b.len() == 0 || a[0] != b[0] {
    } else {
        lemma_bytes_le_total(a.drop_first(), b.drop_first());
    }
}

/// Byte-lexicographic order is transitive.
pub proof fn lemma_bytes_le_trans(a: Seq<u8>, b: Seq<u8>, c: Seq<u8>)
    requires
        spec_bytes_le(a, b),
        spec_bytes_le(b, c),
    ensures
        spec_bytes_le(a, c),
    decreases a.len(),
{
    if a.len() == 0 || c.len() == 0 {
    } else if b.len() == 0 {
    } else {
        if a[0] == b[0] && b[0] == c[0] {
            lemma_bytes_le_trans(a.drop_first(), b.drop_first(), c.drop_first());
        }
    }
}

/// Byte-lexicographic comparison of two names.
fn str_le(a: &str, b: &str) -> (r: bool)
    ensures
        r == spec_bytes_le(a.spec_bytes(), b.spec_bytes()),
{
    let ab = a.as_bytes();
    let bb = b.as_bytes();
    let la = ab.len();
    let lb = bb.len();
    let mut i: usize = 0;
    proof {
        assert(ab@.skip(0) =~= ab@);
        assert(bb@.skip(0) =~= bb@);
    }
    while i < la && i < lb
        invariant
            i <= la,
            i <= lb,
            la == ab@.len(),
            lb == bb@.len(),
            ab@ == a.spec_bytes(),
            bb@ == b.spec_bytes(),
            forall|j: int| 0 <= j < i ==> ab@[j] == bb@[j],
            spec_bytes_le(a.spec_bytes(), b.spec_bytes()) == spec_bytes_le(
                ab@.skip(i as int),
                bb@.skip(i as int),
            ),
        decreases la - i,
    {
        let x = ab[i];
        let y = bb[i];
        proof {
            assert(ab@.skip(i as int)[0] == ab@[i as int]);
            assert(bb@.skip(i as int)[0] == bb@[i as int]);
            assert(ab@.skip(i as int).drop_first() =~= ab@.skip(i as int + 1));
            assert(bb@.skip(i as int).drop_first() =~= bb@.skip(i as int + 1));
        }
        if x != y {
            return x < y;
        }
        i += 1;
    }
    proof {
        if i >= la {
            assert(ab@.skip(i as int).len() == 0);
        } else {
            assert(bb@.skip(i as int).len() == 0);
            assert(ab@.skip(i as int).len() > 0);
        }
    }
    la <= lb
}

/// Display order of bot statistics: richer first, names ascending among
/// equals.
pub open spec fn spec_stat_le(a: BotStatistic, b: BotStatistic) -> bool {
    if a.capital != b.capital {
        a.capital > b.capital
    } else {
        spec_bytes_le(encode_utf8(a.bot_name@),encode_utf8(b.bot_name@))
    }
}

/// Display order of bot statistics, executably.
fn stat_le(a: &BotStatistic, b: &BotStatistic) -> (r: bool)
    ensures
        r == spec_stat_le(*a, *b),
{
    if a.capital != b.capital {
        a.capital > b.capital
    } else {
        str_le(a.bot_name.as_str(), b.bot_name.as_str())
    }
}


/// The statistics order is total.
pub proof fn lemma_stat_le_total(a: BotStatistic, b: BotStatistic)
    ensures
        spec_stat_le(a, b) || spec_stat_le(b, a),
{
    if a.capital == b.capital {
        lemma_bytes_le_total(encode_utf8(a.bot_name@), encode_utf8(b.bot_name@));
    }
}

/// The statistics order is transitive.
pub proof fn lemma_stat_le_trans(a: BotStatistic, b: BotStatistic, c: BotStatistic)
    requires
        spec_stat_le(a, b),
        spec_stat_le(b, c),
    ensures
        spec_stat_le(a, c),
{
    if a.capital == b.capital && b.capital == c.capital {
        lemma_bytes_le_trans(
            encode_utf8(a.bot_name@),
            encode_utf8(b.bot_name@),
            encode_utf8(c.bot_name@),
        );
    }
}

/// Sort aggregated statistics for display: the same rows, ordered by
/// capital descending, then name.
pub fn sort_bot_statistics(bot_statistics: &mut Vec<BotStatistic>)
    ensures
        final(bot_statistics)@.len() == old(bot_statistics)@.len(),
        forall|i: int, j: int|
            0 <= i < j < final(bot_statistics)@.len() ==> spec_stat_le(
                #[trigger] final(bot_statistics)@[i],
                #[trigger] final(bot_statistics)@[j],
            ),
        final(bot_statistics)@.to_multiset() == old(bot_statistics)@.to_multiset(),
{
    let mut out: Vec<BotStatistic> = Vec::new();
    proof {
        out@.to_multiset_ensures();
        bot_statistics@.to_multiset_ensures();
        assert(out@.to_multiset().add(bot_statistics@.to_multiset()) =~= old(
            bot_statistics,
        )@.to_multiset());
    }
    while bot_statistics.len() > 0
        invariant
            out@.len() + bot_statistics@.len() == old(bot_statistics)@.len(),
            out@.to_multiset().add(bot_statistics@.to_multiset()) == old(
                bot_statistics,
            )@.to_multiset(),
            forall|i: int, j: int|
                0 <= i < j < out@.len() ==> spec_stat_le(#[trigger] out@[i], #[trigger] out@[j]),
            forall|i: int, j: int|
                0 <= i < out@.len() && 0 <= j < bot_statistics@.len() ==> spec_stat_le(
                    #[trigger] out@[i],
                    #[trigger] bot_statistics@[j],
                ),
        decreases bot_statistics@.len(),
    {
        let mut mi: usize = 0;
        let mut k: usize = 1;
        proof {
            lemma_stat_le_total(bot_statistics@[0], bot_statistics@[0]);
        }
        while k < bot_statistics.len()
            invariant
                mi < k <= bot_statistics@.len(),
                bot_statistics@.len() > 0,
                forall|l: int|
                    0 <= l < k ==> spec_stat_le(
                        bot_statistics@[mi as int],
                        #[trigger] bot_statistics@[l],
                    ),
            decreases bot_statistics@.len() - k,
        {
            let take = stat_le(&bot_statistics[k], &bot_statistics[mi]);
            proof {
                lemma_stat_le_total(bot_statistics@[mi as int], bot_statistics@[k as int]);
                if take {
                    assert forall|l: int| 0 <= l < k + 1 implies spec_stat_le(
                        bot_statistics@[k as int],
                        #[trigger] bot_statistics@[l],
                    ) by {
                        if l < k {
                            lemma_stat_le_trans(
                                bot_statistics@[k as int],
                                bot_statistics@[mi as int],
                                bot_statistics@[l],
                            );
                        } else {
                            lemma_stat_le_total(bot_statistics@[k as int], bot_statistics@[l]);
                        }
                    }
                }
            }
            if take {
                mi = k;
            }
            k += 1;
        }
        let ghost pre_bots = bot_statistics@;
        let ghost pre_out = out@;
        let b = bot_statistics.remove(mi);
        out.push(b);
        proof {
            pre_bots.to_multiset_ensures();
            pre_out.to_multiset_ensures();
            assert(pre_bots.to_multiset().contains(b));
            assert(out@.to_multiset().add(bot_statistics@.to_multiset())
                =~= pre_out.to_multiset().add(pre_bots.to_multiset()));
            assert forall|i: int, j: int|
                0 <= i < out@.len() && 0 <= j < bot_statistics@.len() implies spec_stat_le(
                #[trigger] out@[i],
                #[trigger] bot_statistics@[j],
            ) by {
                assert(bot_statistics@[j] == pre_bots[if j < mi {
                    j
                } else {
                    j + 1
                }]);
            }
        }
    }
    proof {
        bot_statistics@.to_multiset_ensures();
        vstd::multiset::lemma_multiset_empty_len(bot_statistics@.to_multiset());
        assert(out@.to_multiset().add(bot_statistics@.to_multiset()) =~= out@.to_multiset());
    }
    *bot_statistics = out;
}

/// How many rows beat the starting capital.
pub open spec fn spec_win_days(s: Seq<StatisticResult>) -> int
    decreases s.len(),
{
    if s.len() == 0 {
        0
    } else {
        spec_win_days(s.drop_last()) + if s.last().capital > INITIAL_CAPITAL {
            1int
        } else {
            0int
        }
    }
}

/// How many rows fell short of the starting capital.
pub open spec fn spec_lose_days(s: Seq<StatisticResult>) -> int
    decreases s.len(),
{
    if s.len() == 0 {
        0
    } else {
        spec_lose_days(s.drop_last()) + if s.last().capital < INITIAL_CAPITAL {
            1int
        } else {
            0int
        }
    }
}

/// The summed gain over the starting capital across all rows.
pub open spec fn spec_capital_delta(s: Seq<StatisticResult>) -> int
    decreases s.len(),
{
    if s.len() == 0 {
        0
    } else {
        spec_capital_delta(s.drop_last()) + (s.last().capital - INITIAL_CAPITAL)
    }
}

/// `x` clamped into the band an `i64` can hold.
pub open spec fn spec_clamp_i64(x: int) -> int {
    if x > i64::MAX {
        i64::MAX as int
    } else if x < i64::MIN {
        i64::MIN as int
    } else {
        x
    }
}


/// The summed gain is bounded by the row count times the widest single
/// row's possible gain.
pub proof fn lemma_capital_delta_bound(s: Seq<StatisticResult>)
    ensures
        -(s.len() as int * 0xC000_0000_0000_0000) <= spec_capital_delta(s) <= s.len() as int
            * 0xC000_0000_0000_0000,
    decreases s.len(),
{
    if s.len() == 0 {
    } else {
        lemma_capital_delta_bound(s.drop_last());
        assert((s.len() - 1) * 0xC000_0000_0000_0000 + 0xC000_0000_0000_0000 == s.len() as int
            * 0xC000_0000_0000_0000) by (nonlinear_arith);
    }
}

/// Aggregate a bot's persisted daily rows: how many days it won, how many
/// it lost, and its total gain over the starting capital (saturated at the
/// representable bounds).
pub fn get_win_loss_capital(statistics: &Vec<StatisticResult>) -> (r: (u16, u16, i64))
    requires
        statistics@.len() <= 65535,
    ensures
        r.0 == spec_win_days(statistics@),
        r.1 == spec_lose_days(statistics@),
        r.2 == spec_clamp_i64(spec_capital_delta(statistics@)),
{
    let mut win_days: u16 = 0;
    let mut lose_days: u16 = 0;
    let mut capital: i128 = 0;
    let mut i: usize = 0;
    while i < statistics.len()
        invariant
            i <= statistics@.len() <= 65535,
            win_days == spec_win_days(statistics@.take(i as int)),
            lose_days == spec_lose_days(statistics@.take(i as int)),
            capital == spec_capital_delta(statistics@.take(i as int)),
            win_days <= i,
            lose_days <= i,
        decreases statistics@.len() - i,
    {
        proof {
            assert(statistics@.take(i + 1).drop_last() =~= statistics@.take(i as int));
            assert(statistics@.take(i + 1).last() == statistics@[i as int]);
            lemma_capital_delta_bound(statistics@.take(i as int));
            assert(i as int * 0xC000_0000_0000_0000 <= 65535 * 0xC000_0000_0000_0000)
                by (nonlinear_arith)
                requires
                    0 <= i as int <= 65535,
            ;
        }
        let res = &statistics[i];
        if res.capital > INITIAL_CAPITAL {
            win_days = win_days + 1;
        } else if res.capital < INITIAL_CAPITAL {
            lose_days = lose_days + 1;
        }
        capital = capital + (res.capital as i128) - (INITIAL_CAPITAL as i128);
        i += 1;
    }
    proof {
        assert(statistics@.take(statistics@.len() as int) =~= statistics@);
    }
    let c: i64 = if capital > i64::MAX as i128 {
        i64::MAX
    } else if capital < i64::MIN as i128 {
        i64::MIN
    } else {
        capital as i64
    };
    (win_days, lose_days, c)
}

} // verus!
