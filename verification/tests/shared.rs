use trade_analyst::behavior::{has_times, reentry_counts, switch_counts, tilt_counts, violation_counts, Severity, FLAG_NAMES};
use trade_analyst::shared::{Direction, Session};
use trade_analyst::streaks::{outcome_counts, running_streaks, streaks_of, stride_indices, Outcome};

#[test]
fn direction_parsing() {
    assert_eq!(Direction::parse("BUY"), Some(Direction::Long));
    assert_eq!(Direction::parse(" sell "), Some(Direction::Short));
    assert_eq!(Direction::parse("Long"), Some(Direction::Long));
    assert_eq!(Direction::parse("??"), None);
}

#[test]
fn session_parsing() {
    assert_eq!(Session::parse("New York"), Some(Session::NewYork));
    assert_eq!(Session::parse("LONDON"), Some(Session::London));
    assert_eq!(Session::parse(""), None);
    assert_eq!(Session::parse("weird"), Some(Session::Other));
}

#[test]
fn direction_variants_and_whitespace() {
    for raw in ["long", "buy", "b", "l", "bought", " B ", "\tLONG\n"] {
        assert_eq!(Direction::parse(raw), Some(Direction::Long), "{raw}");
    }
    for raw in ["short", "sell", "s", "sold", "SOLD "] {
        assert_eq!(Direction::parse(raw), Some(Direction::Short), "{raw}");
    }
    assert_eq!(Direction::parse(""), None);
    assert_eq!(Direction::parse("longs"), None);
}

#[test]
fn session_aliases_and_separators() {
    assert_eq!(Session::parse("new-york"), Some(Session::NewYork));
    assert_eq!(Session::parse("NY"), Some(Session::NewYork));
    assert_eq!(Session::parse("London / NY"), Some(Session::Other));
    assert_eq!(Session::parse("london_ny"), Some(Session::Overlap));
    assert_eq!(Session::parse("Tokyo"), Some(Session::Asia));
    assert_eq!(Session::parse("frankfurt"), Some(Session::London));
    assert_eq!(Session::parse(" - "), None);
}

#[test]
fn session_labels_round_trip() {
    for s in Session::ALL {
        assert_eq!(Session::parse(s.label()), Some(s));
        assert_eq!(Session::parse(s.display()), Some(s));
    }
    assert_eq!(Session::NewYork.label(), "new_york");
    assert_eq!(Session::NewYork.display(), "New York");
}

fn outcomes(pnls: &[i64]) -> Vec<Outcome> {
    pnls.iter()
        .map(|p| if *p > 0 { Outcome::Win } else if *p < 0 { Outcome::Loss } else { Outcome::Breakeven })
        .collect()
}

#[test]
fn streak_tracking() {
    // one trade per day: +10 +10 +10 -5 -5 +10
    let t = outcomes(&[10, 10, 10, -5, -5, 10]);
    let s = streaks_of(&t, &t);
    assert_eq!(s.longest_winning_streak_trades, 3);
    assert_eq!(s.longest_losing_streak_trades, 2);
    assert_eq!(s.current_streak_trades, 1);
    assert_eq!(s.longest_winning_streak_days, 3);
    assert_eq!(s.current_streak_days, 1);
}

#[test]
fn breakeven_breaks_streaks() {
    let t = outcomes(&[5, 5, 0, 5, -1, -1, -1, 0]);
    let s = streaks_of(&t, &[]);
    assert_eq!(s.longest_winning_streak_trades, 2);
    assert_eq!(s.longest_losing_streak_trades, 3);
    assert_eq!(s.current_streak_trades, 0);
    assert_eq!(s.longest_winning_streak_days, 0);
    assert_eq!(s.current_streak_days, 0);
}

#[test]
fn current_streak_never_exceeds_longest() {
    let t = outcomes(&[-1, -1, -1, 2, -1, -1]);
    let s = streaks_of(&t, &t);
    assert_eq!(s.current_streak_trades, -2);
    assert!(-s.current_streak_trades as usize <= s.longest_losing_streak_trades);
    assert_eq!(s.longest_losing_streak_trades, 3);
}

#[test]
fn time_series_curve_streaks() {
    // +100, -200, +50
    assert_eq!(running_streaks(&outcomes(&[100, -200, 50])), vec![1, -1, 1]);
    assert_eq!(running_streaks(&outcomes(&[1, 1, 0, -1, -1, -1])), vec![1, 2, 0, -1, -2, -3]);
    assert!(running_streaks(&[]).is_empty());
}

#[test]
fn time_series_downsamples_large_journals() {
    let idx = stride_indices(2500, 1000);
    assert!(idx.len() <= 1000 + 1);
    assert_eq!(idx[0], 0);
    // final point survives sampling
    assert_eq!(*idx.last().unwrap(), 2499);
    // stride = ceil(2500 / 1000) = 3
    assert_eq!(idx[1], 3);
    assert!(idx.windows(2).all(|w| w[0] < w[1]));
}

#[test]
fn stride_keeps_small_series_whole() {
    assert_eq!(stride_indices(5, 10), vec![0, 1, 2, 3, 4]);
    assert_eq!(stride_indices(10, 10), (0..10).collect::<Vec<usize>>());
    assert!(stride_indices(0, 0).is_empty());
    // 9 items down to 4: stride 3 -> 0, 3, 6, then the last (8)
    assert_eq!(stride_indices(9, 4), vec![0, 3, 6, 8]);
    // 7 items down to 3: stride 3 -> 0, 3, 6 (6 is already the last)
    assert_eq!(stride_indices(7, 3), vec![0, 3, 6]);
}

#[test]
fn tilt_detected_after_consecutive_losses() {
    let days = [1, 1, 1, 1];
    let out = [Outcome::Loss; 4];
    let t = tilt_counts(&days, &out, 3);
    assert!(t.tilt_days > 0);
    assert_eq!(t.worst_consecutive_losses, 4);
    assert_eq!(t.trades_after_tilt, 2);
}

#[test]
fn tilt_resets_each_day() {
    let days = [1, 1, 2, 2, 2];
    let out = [Outcome::Loss, Outcome::Loss, Outcome::Loss, Outcome::Win, Outcome::Loss];
    let t = tilt_counts(&days, &out, 3);
    assert_eq!(t.tilt_days, 0);
    assert_eq!(t.worst_consecutive_losses, 2);
    assert_eq!(t.trades_after_tilt, 0);
    let t2 = tilt_counts(&days, &out, 2);
    assert_eq!(t2.tilt_days, 1);
    // the 2nd loss of day 1 reaches the threshold
    assert_eq!(t2.trades_after_tilt, 1);
}

#[test]
fn violation_runs() {
    let v = [true, true, false, true, true, true, false];
    assert_eq!(violation_counts(&v), (5, 3));
    assert_eq!(violation_counts(&[]), (0, 0));
    assert_eq!(violation_counts(&[false, false]), (0, 0));
}

#[test]
fn time_coverage_needs_half_the_trades() {
    assert!(has_times(&[true, false]));
    assert!(!has_times(&[true, false, false]));
    assert!(!has_times(&[]));
    assert!(has_times(&[true]));
}

#[test]
fn strategy_switches_after_losses() {
    let s = |x: &str| Some(x.to_string());
    let strategies = vec![s("A"), s("B"), s("B"), None, s("C"), s("D")];
    let out = [Outcome::Loss, Outcome::Win, Outcome::Loss, Outcome::Loss, Outcome::Win, Outcome::Win];
    let c = switch_counts(&strategies, &out);
    // pairs: (A,B) after loss switched; (B,B) after win same; (B,None) skipped;
    // (None,C) skipped; (C,D) after win switched
    assert_eq!(c.losses_followed, 1);
    assert_eq!(c.switches_after_loss, 1);
    assert_eq!(c.wins_followed, 2);
    assert_eq!(c.switches_after_win, 1);
}

#[test]
fn flag_names_and_severity_order() {
    assert_eq!(FLAG_NAMES.len(), 10);
    assert_eq!(FLAG_NAMES[0], "revenge_trading");
    assert_eq!(FLAG_NAMES[9], "excessive_trading_frequency");
    assert!(Severity::Absent < Severity::Low);
    assert!(Severity::Medium < Severity::High);
}

#[test]
fn reentries_after_losses() {
    // loss -> quick escalated re-entry, loss -> slow re-entry, win -> quick,
    // loss -> next day
    let out = [Outcome::Loss, Outcome::Loss, Outcome::Win, Outcome::Loss, Outcome::Win];
    let gaps = [Some(3), Some(30), Some(2), None];
    let flags = [true, true, false, true];
    let c = reentry_counts(&out, &gaps, &flags, Outcome::Loss, 5);
    assert_eq!(c.triggers, 3);
    assert_eq!(c.quick, 1);
    assert_eq!(c.flagged, 1);
    let w = reentry_counts(&out, &gaps, &flags, Outcome::Win, 5);
    assert_eq!((w.triggers, w.quick, w.flagged), (1, 1, 0));
    let none = reentry_counts(&[], &[], &[], Outcome::Loss, 5);
    assert_eq!(none.triggers, 0);
    // a negative gap (clock going backwards) is not a re-entry
    let neg = reentry_counts(&[Outcome::Loss, Outcome::Win], &[Some(-1)], &[true], Outcome::Loss, 5);
    assert_eq!((neg.triggers, neg.quick), (1, 0));
}

#[test]
fn outcome_counting() {
    assert_eq!(outcome_counts(&outcomes(&[100, -50, 200, 0])), (2, 1, 1));
    assert_eq!(outcome_counts(&[]), (0, 0, 0));
}

#[test]
fn chronological_order_is_a_stable_sort() {
    let keys = [
        (5i64, 0u32, 0u32, 0usize),
        (3, 3600, 0, 1),
        (3, 60, 0, 2),
        (5, 0, 0, 0),
        (3, 60, 0, 2),
    ];
    let order = trade_analyst::order::chronological_order(&keys);
    // day 3 at 00:01 (twice, in position order), day 3 at 01:00, then day 5 (twice)
    assert_eq!(order, vec![2, 4, 1, 0, 3]);
    assert!(trade_analyst::order::chronological_order(&[]).is_empty());
}
