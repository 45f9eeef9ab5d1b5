//! Winning and losing streaks, and stride sampling of long series.
//!
//! A trade (or a day) is a win, a loss or breakeven; breakeven breaks any
//! streak. Streaks are counted over the outcomes in chronological order.

use vstd::prelude::*;

verus! {

/// The outcome class of a PnL figure.
#[derive(Debug, Clone, Copy, PartialEq, Eq, Structural)]
pub enum Outcome {
    Win,
    Loss,
    Breakeven,
}

/// The signed streak after one more outcome: +n is the n-th win in a row,
/// -n the n-th loss in a row, 0 after a breakeven.
pub open spec fn next_streak(current: int, o: Outcome) -> int {
    match o {
        Outcome::Win => if current > 0 {
            current + 1
        } else {
            1
        },
        Outcome::Loss => if current < 0 {
            current - 1
        } else {
            -1
        },
        Outcome::Breakeven => 0,
    }
}

/// The signed streak after all the outcomes.
pub open spec fn streak_after(s: Seq<Outcome>) -> int
    decreases s.len(),
{
    if s.len() == 0 {
        0
    } else {
        next_streak(streak_after(s.drop_last()), s.last())
    }
}

/// How many outcomes equal to `o` end the sequence in a row.
pub open spec fn run_at_end(s: Seq<Outcome>, o: Outcome) -> nat
    decreases s.len(),
{
    if s.len() > 0 && s.last() == o {
        run_at_end(s.drop_last(), o) + 1
    } else {
        0
    }
}

/// The longest run of consecutive outcomes equal to `o`.
pub open spec fn longest_run(s: Seq<Outcome>, o: Outcome) -> nat
    decreases s.len(),
{
    if s.len() == 0 {
        0
    } else {
        let rest = longest_run(s.drop_last(), o);
        let here = run_at_end(s, o);
        if here > rest {
            here
        } else {
            rest
        }
    }
}

/// `s[i..j]` is a run of `o`.
pub open spec fn is_run(s: Seq<Outcome>, o: Outcome, i: int, j: int) -> bool {
    0 <= i <= j <= s.len() && forall|k: int| i <= k < j ==> s[k] == o
}

/// How many outcomes equal `o`.
pub open spec fn count_of(s: Seq<Outcome>, o: Outcome) -> nat
    decreases s.len(),
{
    if s.len() == 0 {
        0
    } else {
        count_of(s.drop_last(), o) + if s.last() == o {
            1nat
        } else {
            0nat
        }
    }
}

/// Every outcome is a win, a loss or breakeven.
pub proof fn law_outcome_counts_add_up(s: Seq<Outcome>)
    ensures
        count_of(s, Outcome::Win) + count_of(s, Outcome::Loss) + count_of(s, Outcome::Breakeven) == s.len(),
    decreases s.len(),
{
    if s.len() > 0 {
        law_outcome_counts_add_up(s.drop_last());
    }
}

/// (wins, losses, breakevens) among the outcomes.
pub fn outcome_counts(outcomes: &[Outcome]) -> (r: (usize, usize, usize))
    ensures
        r.0 == count_of(outcomes@, Outcome::Win),
        r.1 == count_of(outcomes@, Outcome::Loss),
        r.2 == count_of(outcomes@, Outcome::Breakeven),
{
    let ghost s = outcomes@;
    let mut w: usize = 0;
    let mut l: usize = 0;
    let mut b: usize = 0;
    let mut i: usize = 0;
    while i < outcomes.len()
        invariant
            i <= s.len(),
            s == outcomes@,
            w == count_of(s.take(i as int), Outcome::Win),
            l == count_of(s.take(i as int), Outcome::Loss),
            b == count_of(s.take(i as int), Outcome::Breakeven),
            w + l + b == i,
        decreases s.len() - i,
    {
        assert(s.take(i + 1).drop_last() =~= s.take(i as int));
        match outcomes[i] {
            Outcome::Win => w = w + 1,
            Outcome::Loss => l = l + 1,
            Outcome::Breakeven => b = b + 1,
        }
        i = i + 1;
    }
    assert(s.take(i as int) =~= s);
    (w, l, b)
}

/// Streak summary of a sequence of outcomes.
pub struct StreakSummary {
    pub longest_winning: usize,
    pub longest_losing: usize,
    /// Signed: positive = current winning streak, negative = losing.
    pub current: i64,
}

/// The signed streak is the run of wins (positive) or losses (negative)
/// that ends the sequence.
pub proof fn lemma_streak_is_final_run(s: Seq<Outcome>)
    ensures
        streak_after(s) == run_at_end(s, Outcome::Win) as int - run_at_end(s, Outcome::Loss) as int,
        streak_after(s) >= 0 || run_at_end(s, Outcome::Win) == 0,
    decreases s.len(),
{
    if s.len() > 0 {
        lemma_streak_is_final_run(s.drop_last());
    }
}

/// The final run never exceeds the longest run.
pub proof fn lemma_final_run_bounded(s: Seq<Outcome>, o: Outcome)
    ensures
        run_at_end(s, o) <= longest_run(s, o),
        longest_run(s, o) <= s.len(),
    decreases s.len(),
{
    if s.len() > 0 {
        lemma_final_run_bounded(s.drop_last(), o);
        lemma_run_at_end_bounded(s, o);
    }
}

proof fn lemma_run_at_end_bounded(s: Seq<Outcome>, o: Outcome)
    ensures
        run_at_end(s, o) <= s.len(),
    decreases s.len(),
{
    if s.len() > 0 {
        lemma_run_at_end_bounded(s.drop_last(), o);
    }
}

/// The final run of `o` really is a run of `o`.
proof fn lemma_run_at_end_is_run(s: Seq<Outcome>, o: Outcome)
    ensures
        run_at_end(s, o) <= s.len(),
        is_run(s, o, s.len() - run_at_end(s, o), s.len() as int),
    decreases s.len(),
{
    lemma_run_at_end_bounded(s, o);
    if s.len() > 0 && s.last() == o {
        lemma_run_at_end_is_run(s.drop_last(), o);
        assert forall|k: int| s.len() - run_at_end(s, o) <= k < s.len() implies s[k] == o by {
            if k < s.len() - 1 {
                assert(s[k] == s.drop_last()[k]);
            }
        }
    }
}

/// Every run of `o` ending at the end of `s` is at most the final run.
proof fn lemma_run_at_end_maximal(s: Seq<Outcome>, o: Outcome, i: int)
    requires
        is_run(s, o, i, s.len() as int),
    ensures
        s.len() - i <= run_at_end(s, o),
    decreases s.len(),
{
    if i < s.len() {
        assert(s.last() == o);
        assert(is_run(s.drop_last(), o, i, s.len() - 1)) by {
            assert forall|k: int| i <= k < s.len() - 1 implies s.drop_last()[k] == o by {
                assert(s.drop_last()[k] == s[k]);
            }
        }
        lemma_run_at_end_maximal(s.drop_last(), o, i);
    }
}

/// [`longest_run`] is the length of the longest run: some run has that
/// length, and no run is longer.
pub proof fn law_longest_run_is_longest(s: Seq<Outcome>, o: Outcome)
    ensures
        exists|i: int| #[trigger] is_run(s, o, i, i + longest_run(s, o)),
        forall|i: int, j: int| is_run(s, o, i, j) ==> j - i <= longest_run(s, o),
    decreases s.len(),
{
    if s.len() == 0 {
        assert(is_run(s, o, 0int, 0int + longest_run(s, o)));
    } else {
        let t = s.drop_last();
        law_longest_run_is_longest(t, o);
        lemma_run_at_end_is_run(s, o);
        let here = run_at_end(s, o);
        if here > longest_run(t, o) {
            let i0 = s.len() - here;
            assert(is_run(s, o, i0, i0 + longest_run(s, o)));
        } else {
            let i0 = choose|i: int| #[trigger] is_run(t, o, i, i + longest_run(t, o));
            assert(is_run(s, o, i0, i0 + longest_run(s, o))) by {
                assert forall|k: int| i0 <= k < i0 + longest_run(s, o) implies s[k] == o by {
                    assert(t[k] == s[k]);
                }
            }
        }
        assert forall|i: int, j: int| is_run(s, o, i, j) implies j - i <= longest_run(s, o) by {
            if j == s.len() {
                lemma_run_at_end_maximal(s, o, i);
            } else {
                assert(is_run(t, o, i, j)) by {
                    assert forall|k: int| i <= k < j implies t[k] == o by {
                        assert(t[k] == s[k]);
                    }
                }
            }
        }
    }
}

/// Longest winning run, longest losing run and the current signed streak
/// of outcomes in chronological order.
pub fn summarize_streaks(outcomes: &[Outcome]) -> (r: StreakSummary)
    requires
        outcomes@.len() < i64::MAX,
    ensures
        r.longest_winning == longest_run(outcomes@, Outcome::Win),
        r.longest_losing == longest_run(outcomes@, Outcome::Loss),
        r.current == streak_after(outcomes@),
{
    let ghost s = outcomes@;
    let mut longest_win: usize = 0;
    let mut longest_loss: usize = 0;
    let mut current: i64 = 0;
    let mut i: usize = 0;
    while i < outcomes.len()
        invariant
            i <= s.len(),
            s == outcomes@,
            s.len() < i64::MAX,
            longest_win == longest_run(s.take(i as int), Outcome::Win),
            longest_loss == longest_run(s.take(i as int), Outcome::Loss),
            current == streak_after(s.take(i as int)),
            -(i as int) <= current <= i,
        decreases s.len() - i,
    {
        let ghost t = s.take(i + 1);
        assert(t.drop_last() =~= s.take(i as int));
        proof {
            lemma_streak_is_final_run(t);
        }
        current = match outcomes[i] {
            Outcome::Win => if current > 0 {
                current + 1
            } else {
                1
            },
            Outcome::Loss => if current < 0 {
                current - 1
            } else {
                -1
            },
            Outcome::Breakeven => 0,
        };
        let win_run: i64 = if current > 0 {
            current
        } else {
            0
        };
        let loss_run: i64 = if current < 0 {
            -current
        } else {
            0
        };
        proof {
            lemma_streak_is_final_run(t);
        }
        assert(win_run == run_at_end(t, Outcome::Win));
        assert(loss_run == run_at_end(t, Outcome::Loss));
        if win_run as usize > longest_win {
            longest_win = win_run as usize;
        }
        if loss_run as usize > longest_loss {
            longest_loss = loss_run as usize;
        }
        i = i + 1;
    }
    assert(s.take(i as int) =~= s);
    StreakSummary { longest_winning: longest_win, longest_losing: longest_loss, current }
}

/// The signed running streak after each outcome.
pub fn running_streaks(outcomes: &[Outcome]) -> (r: Vec<i64>)
    requires
        outcomes@.len() < i64::MAX,
    ensures
        r@.len() == outcomes@.len(),
        forall|k: int| 0 <= k < r@.len() ==> #[trigger] r@[k] == streak_after(outcomes@.take(k + 1)),
{
    let ghost s = outcomes@;
    let mut out: Vec<i64> = Vec::new();
    let mut current: i64 = 0;
    let mut i: usize = 0;
    while i < outcomes.len()
        invariant
            i <= s.len(),
            s == outcomes@,
            s.len() < i64::MAX,
            out@.len() == i,
            current == streak_after(s.take(i as int)),
            -(i as int) <= current <= i,
            forall|k: int| 0 <= k < i ==> #[trigger] out@[k] == streak_after(s.take(k + 1)),
        decreases s.len() - i,
    {
        assert(s.take(i + 1).drop_last() =~= s.take(i as int));
        current = match outcomes[i] {
            Outcome::Win => if current > 0 {
                current + 1
            } else {
                1
            },
            Outcome::Loss => if current < 0 {
                current - 1
            } else {
                -1
            },
            Outcome::Breakeven => 0,
        };
        out.push(current);
        i = i + 1;
    }
    out
}

/// The trade-level and day-level streaks of a journal.
pub struct Streaks {
    /// Trade-level streaks (chronological).
    pub longest_winning_streak_trades: usize,
    pub longest_losing_streak_trades: usize,
    /// Signed: positive = current winning streak, negative = losing.
    pub current_streak_trades: i64,
    /// Day-level streaks over daily PnL.
    pub longest_winning_streak_days: usize,
    pub longest_losing_streak_days: usize,
    /// Signed: positive = current run of green days, negative = red days.
    pub current_streak_days: i64,
}

/// Trade-level streaks over the trade outcomes and day-level streaks over
/// the outcomes of the daily PnL, both in chronological order.
pub fn streaks_of(trade_outcomes: &[Outcome], day_outcomes: &[Outcome]) -> (r: Streaks)
    requires
        trade_outcomes@.len() < i64::MAX,
        day_outcomes@.len() < i64::MAX,
    ensures
        r.longest_winning_streak_trades == longest_run(trade_outcomes@, Outcome::Win),
        r.longest_losing_streak_trades == longest_run(trade_outcomes@, Outcome::Loss),
        r.current_streak_trades == streak_after(trade_outcomes@),
        r.longest_winning_streak_days == longest_run(day_outcomes@, Outcome::Win),
        r.longest_losing_streak_days == longest_run(day_outcomes@, Outcome::Loss),
        r.current_streak_days == streak_after(day_outcomes@),
{
    let t = summarize_streaks(trade_outcomes);
    let d = summarize_streaks(day_outcomes);
    Streaks {
        longest_winning_streak_trades: t.longest_winning,
        longest_losing_streak_trades: t.longest_losing,
        current_streak_trades: t.current,
        longest_winning_streak_days: d.longest_winning,
        longest_losing_streak_days: d.longest_losing,
        current_streak_days: d.current,
    }
}

/// The current streak never exceeds the longest streak of its kind.
pub proof fn law_current_streak_within_longest(s: Seq<Outcome>)
    ensures
        streak_after(s) <= longest_run(s, Outcome::Win),
        -streak_after(s) <= longest_run(s, Outcome::Loss),
{
    lemma_streak_is_final_run(s);
    lemma_final_run_bounded(s, Outcome::Win);
    lemma_final_run_bounded(s, Outcome::Loss);
    lemma_run_exclusive(s);
}

proof fn lemma_run_exclusive(s: Seq<Outcome>)
    ensures
        run_at_end(s, Outcome::Win) == 0 || run_at_end(s, Outcome::Loss) == 0,
{
}

/// `start`, `start + stride`, ... while below `len`.
pub open spec fn stride_from(start: nat, len: nat, stride: nat) -> Seq<int>
    decreases len - start,
{
    if stride == 0 || start >= len {
        Seq::empty()
    } else if start + stride >= len {
        seq![start as int]
    } else {
        seq![start as int] + stride_from(start + stride, len, stride)
    }
}

/// ceil(len / max).
pub open spec fn stride_for(len: nat, max: nat) -> nat {
    if max == 0 {
        0
    } else {
        len / max + if len % max == 0 {
            0nat
        } else {
            1nat
        }
    }
}

/// The positions kept when sampling `len` items down to about `max`: every
/// item when there are at most `max`; otherwise every `stride`-th item
/// from the first (`stride` = ceil(len / max)), plus the last item when the
/// stride skips it.
pub open spec fn stride_positions(len: nat, max: nat) -> Seq<int> {
    if len <= max {
        Seq::new(len, |i: int| i)
    } else {
        let stride = stride_for(len, max);
        let base = stride_from(0, len, stride);
        if (len - 1) % (stride as int) != 0 {
            base.push(len - 1)
        } else {
            base
        }
    }
}

/// The positions of a stride sample of `len` items down to about `max`
/// (see [`stride_positions`]).
pub fn stride_indices(len: usize, max: usize) -> (r: Vec<usize>)
    requires
        max > 0 || len == 0,
    ensures
        r@.map_values(|x: usize| x as int) == stride_positions(len as nat, max as nat),
{
    if len <= max {
        let mut out: Vec<usize> = Vec::new();
        let mut i: usize = 0;
        while i < len
            invariant
                i <= len,
                out@.map_values(|x: usize| x as int) =~= Seq::new(i as nat, |k: int| k),
            decreases len - i,
        {
            let ghost before = out@.map_values(|x: usize| x as int);
            out.push(i);
            assert(out@.map_values(|x: usize| x as int) =~= before.push(i as int));
            i = i + 1;
        }
        return out;
    }
    let q = len / max;
    let rem = len % max;
    assert(rem != 0 ==> q < usize::MAX) by (nonlinear_arith)
        requires
            max > 0,
            q == len / max,
            rem == len % max,
            len <= usize::MAX,
    {
        if rem != 0 {
            assert(max >= 2);
            assert(q * max <= len);
            assert(q * 2 <= q * max);
        }
    }
    let stride: usize = q + if rem == 0 {
        0
    } else {
        1
    };
    assert(stride >= 1) by (nonlinear_arith)
        requires
            len > max,
            max > 0,
            stride == len / max + if len % max == 0 {
                0nat
            } else {
                1nat
            },
    ;
    let mut out: Vec<usize> = Vec::new();
    let mut k: usize = 0;
    while k < len
        invariant
            stride >= 1,
            stride == stride_for(len as nat, max as nat),
            out@.map_values(|x: usize| x as int) + stride_from(k as nat, len as nat, stride as nat)
                =~= stride_from(0, len as nat, stride as nat),
        decreases len - k,
    {
        let ghost before = out@.map_values(|x: usize| x as int);
        out.push(k);
        assert(out@.map_values(|x: usize| x as int) =~= before.push(k as int));
        assert(before.push(k as int) + stride_from((k + stride) as nat, len as nat, stride as nat)
            =~= before + stride_from(k as nat, len as nat, stride as nat));
        if len - k <= stride {
            assert(stride_from((k + stride) as nat, len as nat, stride as nat) =~= Seq::<int>::empty());
            k = len;
        } else {
            k = k + stride;
        }
    }
    let ghost base = stride_from(0, len as nat, stride as nat);
    assert(out@.map_values(|x: usize| x as int) =~= base);
    if (len - 1) % stride != 0 {
        out.push(len - 1);
        assert(out@.map_values(|x: usize| x as int) =~= base.push(len - 1));
    }
    out
}

proof fn lemma_stride_from_shape(start: nat, len: nat, stride: nat)
    requires
        stride > 0,
    ensures
        forall|k: int| 0 <= k < stride_from(start, len, stride).len() ==> #[trigger] stride_from(start, len, stride)[k] == start + k * stride,
        forall|k: int| 0 <= k < stride_from(start, len, stride).len() ==> start <= #[trigger] stride_from(start, len, stride)[k] < len,
        start < len ==> stride_from(start, len, stride).len() >= 1,
        stride_from(start, len, stride).len() >= 1 ==> (stride_from(start, len, stride).len() - 1) * stride < len - start,
        start < len ==> stride_from(start, len, stride).len() * stride >= len - start,
    decreases len - start,
{
    let r = stride_from(start, len, stride);
    if start < len && start + stride >= len {
        assert(r =~= seq![start as int]);
        assert(r[0] == start + 0 * stride);
        assert((r.len() - 1) * stride == 0);
        assert(r.len() * stride == stride);
    }
    if start < len && start + stride < len {
        let t = stride_from(start + stride, len, stride);
        lemma_stride_from_shape(start + stride, len, stride);
        assert forall|k: int| 0 <= k < r.len() implies #[trigger] r[k] == start + k * stride by {
            if k > 0 {
                assert(r[k] == t[k - 1]);
                assert((k - 1) * stride + stride == k * stride) by (nonlinear_arith);
            }
        }
        assert forall|k: int| 0 <= k < r.len() implies start <= #[trigger] r[k] < len by {
            if k > 0 {
                assert(r[k] == t[k - 1]);
            }
        }
        assert((r.len() - 1) * stride == (t.len() - 1) * stride + stride) by (nonlinear_arith)
            requires
                r.len() == t.len() + 1,
        ;
        assert(r.len() * stride == t.len() * stride + stride) by (nonlinear_arith)
            requires
                r.len() == t.len() + 1,
        ;
    }
}

/// A stride sample starts with the first item and ends with the last one,
/// its positions strictly increase and stay within the items, and it keeps
/// every item when there are at most `max`.
pub proof fn law_stride_sample_shape(len: nat, max: nat)
    requires
        max > 0,
    ensures
        ({
            let p = stride_positions(len, max);
            &&& len > 0 ==> p.len() > 0 && p[0] == 0 && p.last() == len - 1
            &&& forall|i: int, j: int| 0 <= i < j < p.len() ==> p[i] < p[j]
            &&& forall|i: int| 0 <= i < p.len() ==> 0 <= #[trigger] p[i] < len
            &&& len <= max ==> p == Seq::new(len, |i: int| i)
        }),
{
    let p = stride_positions(len, max);
    if len > max {
        let stride = stride_for(len, max);
        assert(stride >= 1) by (nonlinear_arith)
            requires
                len > max,
                max > 0,
                stride == len / max + if len % max == 0 {
                    0nat
                } else {
                    1nat
                },
        ;
        let base = stride_from(0, len, stride);
        lemma_stride_from_shape(0, len, stride);
        assert forall|i: int, j: int| 0 <= i < j < base.len() implies base[i] < base[j] by {
            assert(base[i] == i * stride);
            assert(base[j] == j * stride);
            assert(i * stride < j * stride) by (nonlinear_arith)
                requires
                    i < j,
                    stride >= 1,
            ;
        }
        let last = base.last();
        assert(last == (base.len() - 1) * stride);
        if (len - 1) % (stride as int) != 0 {
            assert(last != len - 1) by {
                if last == len - 1 {
                    assert(((base.len() - 1) * stride) % (stride as int) == 0) by (nonlinear_arith)
                        requires
                            stride >= 1,
                            base.len() >= 1,
                    ;
                }
            }
            assert(last < len - 1);
        } else {
            assert(last == len - 1) by {
                let c = (len - 1) / (stride as int);
                assert(c * stride == len - 1) by (nonlinear_arith)
                    requires
                        (len - 1) % (stride as int) == 0,
                        stride >= 1,
                        c == (len - 1) / (stride as int),
                ;
                assert(c < base.len()) by {
                    if c >= base.len() {
                        assert(c * stride >= base.len() * stride) by (nonlinear_arith)
                            requires
                                c >= base.len(),
                                stride >= 1,
                        ;
                        assert(base.len() * stride == (base.len() - 1) * stride + stride) by (nonlinear_arith);
                    }
                }
                assert(base[c] == c * stride);
                if last > len - 1 {
                }
            }
        }
    }
}

/// A stride sample keeps at most `max + 1` positions.
pub proof fn law_stride_sample_size(len: nat, max: nat)
    requires
        max > 0,
    ensures
        stride_positions(len, max).len() <= max + 1,
{
    if len > max {
        let stride = stride_for(len, max);
        let q = len / max;
        let rem = len % max;
        assert(stride >= 1 && stride * max >= len) by (nonlinear_arith)
            requires
                len > max,
                max > 0,
                q == len / max,
                rem == len % max,
                stride == q + if rem == 0 {
                    0nat
                } else {
                    1nat
                },
        ;
        let base = stride_from(0, len, stride);
        lemma_stride_from_shape(0, len, stride);
        assert(base.len() <= max) by (nonlinear_arith)
            requires
                base.len() >= 1,
                (base.len() - 1) * stride < len,
                stride * max >= len,
                stride >= 1,
        ;
    }
}

} // verus!
