//! Counting rules behind the behavioral flags: how much time data a journal
//! has, loss streaks within a day (tilt), runs of rule violations, and
//! strategy switches after losses and wins.

use vstd::prelude::*;
use crate::streaks::Outcome;
use crate::text::{chars_of, same_chars};

verus! {

/// The stable machine names of the behavioral flags, in emission order.
/// They are part of the exchange contract and never change.
pub const FLAG_NAMES: [&'static str; 10] = [
    "revenge_trading",
    "overtrading",
    "fomo",
    "position_size_escalation",
    "risk_escalation",
    "tilt",
    "panic_exits",
    "consecutive_rule_violations",
    "strategy_switching",
    "excessive_trading_frequency",
];

/// How severe a detected behavior is, in increasing order.
#[derive(Debug, Clone, Copy, PartialEq, Eq, PartialOrd, Ord, Structural)]
pub enum Severity {
    Absent,
    Low,
    Medium,
    High,
}

/// How many entries are true.
pub open spec fn count_true(s: Seq<bool>) -> nat
    decreases s.len(),
{
    if s.len() == 0 {
        0
    } else {
        count_true(s.drop_last()) + if s.last() {
            1nat
        } else {
            0nat
        }
    }
}

proof fn lemma_count_true_bounded(s: Seq<bool>)
    ensures
        count_true(s) <= s.len(),
    decreases s.len(),
{
    if s.len() > 0 {
        lemma_count_true_bounded(s.drop_last());
    }
}

fn count_set(s: &[bool]) -> (r: usize)
    ensures
        r == count_true(s@),
{
    let mut n: usize = 0;
    let mut i: usize = 0;
    while i < s.len()
        invariant
            i <= s@.len(),
            n == count_true(s@.take(i as int)),
            n <= i,
        decreases s@.len() - i,
    {
        assert(s@.take(i + 1).drop_last() =~= s@.take(i as int));
        if s[i] {
            n = n + 1;
        }
        i = i + 1;
    }
    assert(s@.take(i as int) =~= s@);
    n
}

/// Time-based detectors need a time on at least half of the trades (and
/// at least one trade).
pub open spec fn enough_times(timed: Seq<bool>) -> bool {
    count_true(timed) * 2 >= if timed.len() > 0 {
        timed.len()
    } else {
        1
    }
}

/// Whether at least half of the trades (and at least one) carry a time.
pub fn has_times(timed: &[bool]) -> (r: bool)
    ensures
        r == enough_times(timed@),
{
    let n = count_set(timed);
    let total: usize = if timed.len() > 0 {
        timed.len()
    } else {
        1
    };
    n as u128 * 2 >= total as u128
}

/// How many entries are true at the end, in a row.
pub open spec fn true_run_at_end(s: Seq<bool>) -> nat
    decreases s.len(),
{
    if s.len() > 0 && s.last() {
        true_run_at_end(s.drop_last()) + 1
    } else {
        0
    }
}

/// The longest run of consecutive true entries.
pub open spec fn longest_true_run(s: Seq<bool>) -> nat
    decreases s.len(),
{
    if s.len() == 0 {
        0
    } else {
        let rest = longest_true_run(s.drop_last());
        let here = true_run_at_end(s);
        if here > rest {
            here
        } else {
            rest
        }
    }
}

proof fn lemma_true_runs_bounded(s: Seq<bool>)
    ensures
        true_run_at_end(s) <= count_true(s),
        longest_true_run(s) <= count_true(s),
    decreases s.len(),
{
    if s.len() > 0 {
        lemma_true_runs_bounded(s.drop_last());
    }
}

/// (violations, longest run of consecutive violations) of a per-trade
/// violation record.
pub fn violation_counts(violated: &[bool]) -> (r: (usize, usize))
    ensures
        r.0 == count_true(violated@),
        r.1 == longest_true_run(violated@),
        r.1 <= r.0,
{
    let ghost s = violated@;
    let mut violations: usize = 0;
    let mut longest: usize = 0;
    let mut current: usize = 0;
    let mut i: usize = 0;
    while i < violated.len()
        invariant
            i <= s.len(),
            s == violated@,
            violations == count_true(s.take(i as int)),
            current == true_run_at_end(s.take(i as int)),
            longest == longest_true_run(s.take(i as int)),
            current <= violations <= i,
        decreases s.len() - i,
    {
        assert(s.take(i + 1).drop_last() =~= s.take(i as int));
        proof {
            lemma_true_runs_bounded(s.take(i as int));
        }
        if violated[i] {
            violations = violations + 1;
            current = current + 1;
            if current > longest {
                longest = current;
            }
        } else {
            current = 0;
        }
        i = i + 1;
    }
    assert(s.take(i as int) =~= s);
    proof {
        lemma_true_runs_bounded(s);
    }
    (violations, longest)
}

/// Tilt counters: days on which losses reached the threshold in a row,
/// the worst loss streak within one day, and the trades taken while at or
/// past the threshold.
pub struct TiltCounts {
    pub tilt_days: usize,
    pub worst_consecutive_losses: usize,
    pub trades_after_tilt: usize,
}

/// The tilt scan over the first `n` trades: (tilt days, worst streak,
/// trades after tilt, the streak of losses so far today). A new day resets
/// the streak; a loss extends it (the day counts as a tilt day when the
/// streak reaches the threshold exactly); any other trade taken at or past
/// the threshold counts, then resets the streak.
pub open spec fn tilt_scan(days: Seq<i64>, outcomes: Seq<Outcome>, threshold: nat, n: nat) -> (nat, nat, nat, nat)
    decreases n,
{
    if n == 0 {
        (0, 0, 0, 0)
    } else {
        let p = tilt_scan(days, outcomes, threshold, (n - 1) as nat);
        let streak = if n >= 2 && days[n - 2] == days[n - 1] {
            p.3
        } else {
            0
        };
        if outcomes[n - 1] == Outcome::Loss {
            let s = streak + 1;
            (
                p.0 + if s == threshold {
                    1nat
                } else {
                    0nat
                },
                if s > p.1 {
                    s
                } else {
                    p.1
                },
                p.2 + if s >= threshold {
                    1nat
                } else {
                    0nat
                },
                s,
            )
        } else {
            (p.0, p.1, p.2 + if streak >= threshold {
                1nat
            } else {
                0nat
            }, 0)
        }
    }
}

/// Trade `i` is a loss that ends a run of exactly `k` consecutive losses
/// taken on one day: trades `i - k + 1 ..= i` are losses, each on the same
/// day as the trade before it, and the run cannot be extended backwards
/// (it starts the journal, follows a non-loss, or starts a new day).
pub open spec fn loss_run(days: Seq<i64>, outcomes: Seq<Outcome>, i: int, k: int) -> bool {
    &&& 1 <= k <= i + 1
    &&& forall|j: int| i - k < j <= i ==> #[trigger] outcomes[j] == Outcome::Loss
    &&& forall|j: int| i - k + 1 < j <= i ==> days[j - 1] == #[trigger] days[j]
    &&& (i - k < 0 || outcomes[i - k] != Outcome::Loss || days[i - k] != days[i - k + 1])
}

/// How many of the first `n` trades end a one-day loss run of exactly
/// `threshold` losses.
pub open spec fn threshold_hits(days: Seq<i64>, outcomes: Seq<Outcome>, threshold: int, n: nat) -> nat
    decreases n,
{
    if n == 0 {
        0
    } else {
        threshold_hits(days, outcomes, threshold, (n - 1) as nat) + if loss_run(days, outcomes, n - 1, threshold) {
            1nat
        } else {
            0nat
        }
    }
}

proof fn lemma_loss_run_unique(days: Seq<i64>, outcomes: Seq<Outcome>, i: int, k1: int, k2: int)
    requires
        loss_run(days, outcomes, i, k1),
        loss_run(days, outcomes, i, k2),
    ensures
        k1 == k2,
{
    if k1 < k2 {
        assert(outcomes[i - k1] == Outcome::Loss);
        if i - k1 + 1 <= i {
            assert(days[i - k1] == days[i - k1 + 1]);
        }
    } else if k2 < k1 {
        assert(outcomes[i - k2] == Outcome::Loss);
        if i - k2 + 1 <= i {
            assert(days[i - k2] == days[i - k2 + 1]);
        }
    }
}

/// The running streak of the tilt scan is the length of the one-day loss
/// run ending at the last trade, and zero after a non-loss.
proof fn lemma_scan_streak(days: Seq<i64>, outcomes: Seq<Outcome>, threshold: nat, n: nat)
    requires
        n <= days.len(),
        days.len() == outcomes.len(),
    ensures
        n >= 1 && outcomes[n - 1] == Outcome::Loss ==> loss_run(days, outcomes, n - 1, tilt_scan(days, outcomes, threshold, n).3 as int),
        n >= 1 && outcomes[n - 1] != Outcome::Loss ==> tilt_scan(days, outcomes, threshold, n).3 == 0,
    decreases n,
{
    if n >= 1 {
        lemma_scan_streak(days, outcomes, threshold, (n - 1) as nat);
        let i = n - 1;
        let p = tilt_scan(days, outcomes, threshold, (n - 1) as nat);
        if outcomes[i] == Outcome::Loss {
            let k = tilt_scan(days, outcomes, threshold, n).3 as int;
            if n >= 2 && days[n - 2] == days[n - 1] && outcomes[n - 2] == Outcome::Loss {
                let k0 = p.3 as int;
                assert(k == k0 + 1);
                assert(loss_run(days, outcomes, i - 1, k0));
                assert forall|j: int| i - k < j <= i implies #[trigger] outcomes[j] == Outcome::Loss by {
                    if j < i {
                        assert(i - 1 - k0 < j <= i - 1);
                    }
                }
                assert forall|j: int| i - k + 1 < j <= i implies days[j - 1] == #[trigger] days[j] by {
                    if j < i {
                        assert(i - 1 - k0 + 1 < j <= i - 1);
                    }
                }
            } else {
                assert(k == 1);
            }
        }
    }
}

/// Tilt days count the trades that bring a one-day run of consecutive
/// losses to exactly the threshold: a loss past the threshold adds no tilt
/// day, and a run only counts once it reaches the threshold.
pub proof fn law_tilt_days_are_threshold_hits(days: Seq<i64>, outcomes: Seq<Outcome>, threshold: nat, n: nat)
    requires
        n <= days.len(),
        days.len() == outcomes.len(),
    ensures
        tilt_scan(days, outcomes, threshold, n).0 == threshold_hits(days, outcomes, threshold as int, n),
    decreases n,
{
    if n >= 1 {
        law_tilt_days_are_threshold_hits(days, outcomes, threshold, (n - 1) as nat);
        lemma_scan_streak(days, outcomes, threshold, n);
        let k = tilt_scan(days, outcomes, threshold, n).3 as int;
        if outcomes[n - 1] == Outcome::Loss {
            if loss_run(days, outcomes, n - 1, threshold as int) {
                lemma_loss_run_unique(days, outcomes, n - 1, k, threshold as int);
            }
        } else {
            assert(!loss_run(days, outcomes, n - 1, threshold as int)) by {
                if loss_run(days, outcomes, n - 1, threshold as int) {
                    assert(outcomes[n - 1] == Outcome::Loss);
                }
            }
        }
    }
}

/// Some one-day loss run of at least `t` losses ends at trade `i`.
pub open spec fn run_reaches(days: Seq<i64>, outcomes: Seq<Outcome>, i: int, t: int) -> bool {
    exists|k: int| k >= t && #[trigger] loss_run(days, outcomes, i, k)
}

/// Trade `i` is taken while at or past the threshold: a loss that brings
/// (or keeps) its day's loss run at the threshold or beyond, or any other
/// trade right after such a loss on the same day (every trade when the
/// threshold is zero).
pub open spec fn taken_on_tilt(days: Seq<i64>, outcomes: Seq<Outcome>, threshold: int, i: int) -> bool {
    if outcomes[i] == Outcome::Loss {
        run_reaches(days, outcomes, i, threshold)
    } else {
        threshold <= 0 || (i >= 1 && days[i - 1] == days[i] && outcomes[i - 1] == Outcome::Loss && run_reaches(days, outcomes, i - 1, threshold))
    }
}

/// How many of the first `n` trades are taken on tilt.
pub open spec fn tilt_trades(days: Seq<i64>, outcomes: Seq<Outcome>, threshold: int, n: nat) -> nat
    decreases n,
{
    if n == 0 {
        0
    } else {
        tilt_trades(days, outcomes, threshold, (n - 1) as nat) + if taken_on_tilt(days, outcomes, threshold, n - 1) {
            1nat
        } else {
            0nat
        }
    }
}

proof fn lemma_run_reaches(days: Seq<i64>, outcomes: Seq<Outcome>, i: int, k: int, t: int)
    requires
        loss_run(days, outcomes, i, k),
    ensures
        run_reaches(days, outcomes, i, t) <==> k >= t,
{
    if run_reaches(days, outcomes, i, t) {
        let k2 = choose|k2: int| k2 >= t && #[trigger] loss_run(days, outcomes, i, k2);
        lemma_loss_run_unique(days, outcomes, i, k, k2);
    }
}

/// Trades after tilt count the trades taken on tilt.
pub proof fn law_trades_after_tilt(days: Seq<i64>, outcomes: Seq<Outcome>, threshold: nat, n: nat)
    requires
        n <= days.len(),
        days.len() == outcomes.len(),
    ensures
        tilt_scan(days, outcomes, threshold, n).2 == tilt_trades(days, outcomes, threshold as int, n),
    decreases n,
{
    if n >= 1 {
        law_trades_after_tilt(days, outcomes, threshold, (n - 1) as nat);
        lemma_scan_streak(days, outcomes, threshold, n);
        let i = n - 1;
        if outcomes[i] == Outcome::Loss {
            lemma_run_reaches(days, outcomes, i, tilt_scan(days, outcomes, threshold, n).3 as int, threshold as int);
        } else if n >= 2 {
            lemma_scan_streak(days, outcomes, threshold, (n - 1) as nat);
            let p3 = tilt_scan(days, outcomes, threshold, (n - 1) as nat).3 as int;
            if outcomes[i - 1] == Outcome::Loss {
                lemma_run_reaches(days, outcomes, i - 1, p3, threshold as int);
            }
        }
    }
}

/// The worst streak is the longest one-day loss run: no run is longer,
/// and a run of that length exists whenever there is a loss.
pub proof fn law_worst_streak_is_longest_run(days: Seq<i64>, outcomes: Seq<Outcome>, threshold: nat, n: nat)
    requires
        n <= days.len(),
        days.len() == outcomes.len(),
    ensures
        forall|i: int, k: int| 0 <= i < n && #[trigger] loss_run(days, outcomes, i, k) ==> k <= tilt_scan(days, outcomes, threshold, n).1,
        tilt_scan(days, outcomes, threshold, n).1 > 0 ==> exists|i: int| 0 <= i < n && #[trigger] loss_run(days, outcomes, i, tilt_scan(days, outcomes, threshold, n).1 as int),
    decreases n,
{
    if n >= 1 {
        law_worst_streak_is_longest_run(days, outcomes, threshold, (n - 1) as nat);
        lemma_scan_streak(days, outcomes, threshold, n);
        let w = tilt_scan(days, outcomes, threshold, n).1;
        let p1 = tilt_scan(days, outcomes, threshold, (n - 1) as nat).1;
        let s = tilt_scan(days, outcomes, threshold, n).3 as int;
        assert forall|i: int, k: int| 0 <= i < n && #[trigger] loss_run(days, outcomes, i, k) implies k <= w by {
            if i == n - 1 {
                lemma_loss_run_unique(days, outcomes, i, k, s);
            }
        }
        if w > 0 {
            if w == p1 && p1 > 0 {
                let i = choose|i: int| 0 <= i < n - 1 && #[trigger] loss_run(days, outcomes, i, p1 as int);
                assert(loss_run(days, outcomes, i, w as int));
            } else {
                assert(loss_run(days, outcomes, n - 1, w as int));
            }
        }
    }
}

/// Count tilt over trades in chronological order, given each trade's day
/// (any key that is equal exactly for trades on the same date) and outcome.
pub fn tilt_counts(days: &[i64], outcomes: &[Outcome], threshold: usize) -> (r: TiltCounts)
    requires
        days@.len() == outcomes@.len(),
    ensures
        ({
            let t = tilt_scan(days@, outcomes@, threshold as nat, days@.len() as nat);
            &&& r.tilt_days == t.0
            &&& r.worst_consecutive_losses == t.1
            &&& r.trades_after_tilt == t.2
        }),
        r.tilt_days == threshold_hits(days@, outcomes@, threshold as int, days@.len() as nat),
        r.trades_after_tilt == tilt_trades(days@, outcomes@, threshold as int, days@.len() as nat),
{
    proof {
        law_tilt_days_are_threshold_hits(days@, outcomes@, threshold as nat, days@.len() as nat);
        law_trades_after_tilt(days@, outcomes@, threshold as nat, days@.len() as nat);
    }
    let mut tilt_days: usize = 0;
    let mut worst: usize = 0;
    let mut after: usize = 0;
    let mut streak: usize = 0;
    let mut i: usize = 0;
    while i < days.len()
        invariant
            i <= days@.len(),
            days@.len() == outcomes@.len(),
            (tilt_days as nat, worst as nat, after as nat, streak as nat) == tilt_scan(days@, outcomes@, threshold as nat, i as nat),
            tilt_days <= i,
            worst <= i,
            after <= i,
            streak <= i,
        decreases days@.len() - i,
    {
        assert(((i + 1) as nat - 1) as nat == i as nat);
        if !(i >= 1 && days[i - 1] == days[i]) {
            streak = 0;
        }
        match outcomes[i] {
            Outcome::Loss => {
                streak = streak + 1;
                if streak == threshold {
                    tilt_days = tilt_days + 1;
                }
                if streak >= threshold {
                    after = after + 1;
                }
                if streak > worst {
                    worst = streak;
                }
            },
            _ => {
                if streak >= threshold {
                    after = after + 1;
                }
                streak = 0;
            },
        }
        i = i + 1;
    }
    TiltCounts { tilt_days, worst_consecutive_losses: worst, trades_after_tilt: after }
}

/// Strategy switching counters over consecutive trades that both carry a
/// strategy: switches after a loss, losses followed by such a trade, and
/// the same after a win.
pub struct SwitchCounts {
    pub switches_after_loss: usize,
    pub losses_followed: usize,
    pub switches_after_win: usize,
    pub wins_followed: usize,
}

/// The switching scan over the first `n` consecutive pairs.
pub open spec fn switch_scan(strategies: Seq<Option<Seq<char>>>, outcomes: Seq<Outcome>, n: nat) -> (nat, nat, nat, nat)
    decreases n,
{
    if n == 0 {
        (0, 0, 0, 0)
    } else {
        let p = switch_scan(strategies, outcomes, (n - 1) as nat);
        let k = n - 1;
        match (strategies[k], strategies[k + 1]) {
            (Some(a), Some(b)) => {
                let switched = if a != b {
                    1nat
                } else {
                    0nat
                };
                match outcomes[k] {
                    Outcome::Loss => (p.0 + switched, p.1 + 1, p.2, p.3),
                    Outcome::Win => (p.0, p.1, p.2 + switched, p.3 + 1),
                    Outcome::Breakeven => p,
                }
            },
            _ => p,
        }
    }
}

/// The views of optional strings.
pub open spec fn opt_views(v: Seq<Option<String>>) -> Seq<Option<Seq<char>>> {
    v.map_values(|o: Option<String>| crate::config::opt_view(o))
}

/// Count strategy switches after losses and after wins, over trades in
/// chronological order.
pub fn switch_counts(strategies: &[Option<String>], outcomes: &[Outcome]) -> (r: SwitchCounts)
    requires
        strategies@.len() == outcomes@.len(),
    ensures
        ({
            let n = if strategies@.len() > 0 {
                (strategies@.len() - 1) as nat
            } else {
                0nat
            };
            let t = switch_scan(opt_views(strategies@), outcomes@, n);
            &&& r.switches_after_loss == t.0
            &&& r.losses_followed == t.1
            &&& r.switches_after_win == t.2
            &&& r.wins_followed == t.3
        }),
{
    let ghost sv = opt_views(strategies@);
    let mut sl: usize = 0;
    let mut lf: usize = 0;
    let mut sw: usize = 0;
    let mut wf: usize = 0;
    if strategies.len() == 0 {
        return SwitchCounts { switches_after_loss: 0, losses_followed: 0, switches_after_win: 0, wins_followed: 0 };
    }
    let n = strategies.len();
    let mut k: usize = 0;
    while k < n - 1
        invariant
            n == strategies@.len(),
            n >= 1,
            k + 1 <= n,
            strategies@.len() == outcomes@.len(),
            sv == opt_views(strategies@),
            (sl as nat, lf as nat, sw as nat, wf as nat) == switch_scan(sv, outcomes@, k as nat),
            sl <= k,
            lf <= k,
            sw <= k,
            wf <= k,
        decreases strategies@.len() - k,
    {
        assert(((k + 1) as nat - 1) as nat == k as nat);
        assert(sv[k as int] == crate::config::opt_view(strategies@[k as int]));
        assert(sv[k + 1] == crate::config::opt_view(strategies@[k + 1]));
        match (&strategies[k], &strategies[k + 1]) {
            (Some(a), Some(b)) => {
                let same = same_chars(chars_of(a.as_str()).as_slice(), chars_of(b.as_str()).as_slice());
                match outcomes[k] {
                    Outcome::Loss => {
                        lf = lf + 1;
                        if !same {
                            sl = sl + 1;
                        }
                    },
                    Outcome::Win => {
                        wf = wf + 1;
                        if !same {
                            sw = sw + 1;
                        }
                    },
                    Outcome::Breakeven => {},
                }
            },
            _ => {},
        }
        k = k + 1;
    }
    SwitchCounts { switches_after_loss: sl, losses_followed: lf, switches_after_win: sw, wins_followed: wf }
}

/// Re-entry counters over consecutive trades: how many trades of the
/// triggering outcome were followed by another trade, how many of those
/// re-entries came the same day within the window, and how many of the
/// quick ones were flagged (escalated size/risk after a loss, a worse RR
/// after a win).
pub struct ReentryCounts {
    pub triggers: usize,
    pub quick: usize,
    pub flagged: usize,
}

/// The re-entry scan over the first `n` consecutive pairs: pair `k` is
/// trade `k` followed by trade `k + 1`; `gaps[k]` is the gap in minutes
/// when both are on the same date; `flags[k]` marks the follow-up trade.
pub open spec fn reentry_scan(
    outcomes: Seq<Outcome>,
    gaps: Seq<Option<i64>>,
    flags: Seq<bool>,
    trigger: Outcome,
    window: i64,
    n: nat,
) -> (nat, nat, nat)
    decreases n,
{
    if n == 0 {
        (0, 0, 0)
    } else {
        let p = reentry_scan(outcomes, gaps, flags, trigger, window, (n - 1) as nat);
        let k = n - 1;
        if outcomes[k] != trigger {
            p
        } else {
            match gaps[k] {
                Some(g) => if 0 <= g && g <= window {
                    (p.0 + 1, p.1 + 1, p.2 + if flags[k] {
                        1nat
                    } else {
                        0nat
                    })
                } else {
                    (p.0 + 1, p.1, p.2)
                },
                None => (p.0 + 1, p.1, p.2),
            }
        }
    }
}

/// Count re-entries after trades with the `trigger` outcome, over trades in
/// chronological order: `gaps` and `flags` have one entry per consecutive
/// pair.
pub fn reentry_counts(outcomes: &[Outcome], gaps: &[Option<i64>], flags: &[bool], trigger: Outcome, window: i64) -> (r: ReentryCounts)
    requires
        gaps@.len() == flags@.len(),
        gaps@.len() + 1 == outcomes@.len() || (gaps@.len() == 0 && outcomes@.len() == 0),
    ensures
        ({
            let t = reentry_scan(outcomes@, gaps@, flags@, trigger, window, gaps@.len() as nat);
            &&& r.triggers == t.0
            &&& r.quick == t.1
            &&& r.flagged == t.2
        }),
        r.flagged <= r.quick <= r.triggers,
{
    let mut triggers: usize = 0;
    let mut quick: usize = 0;
    let mut flagged: usize = 0;
    let mut k: usize = 0;
    while k < gaps.len()
        invariant
            k <= gaps@.len(),
            gaps@.len() == flags@.len(),
            gaps@.len() + 1 == outcomes@.len() || (gaps@.len() == 0 && outcomes@.len() == 0),
            (triggers as nat, quick as nat, flagged as nat) == reentry_scan(outcomes@, gaps@, flags@, trigger, window, k as nat),
            flagged <= quick <= triggers <= k,
        decreases gaps@.len() - k,
    {
        assert(((k + 1) as nat - 1) as nat == k as nat);
        if outcomes[k] == trigger {
            triggers = triggers + 1;
            match gaps[k] {
                Some(g) => {
                    if 0 <= g && g <= window {
                        quick = quick + 1;
                        if flags[k] {
                            flagged = flagged + 1;
                        }
                    }
                },
                None => {},
            }
        }
        k = k + 1;
    }
    ReentryCounts { triggers, quick, flagged }
}

} // verus!
