use lsl::leaderboard::{
    entry_runs, filter, filter_runs, player_key, run_filter, select_player, sort, sort_runs, RunFilter,
    SortOrder,
};
use lsl::time::{RunTime, Timestamp};
use lsl::types::{PartialRun, PartialUser};
use std::collections::HashMap;
use lsl::leaderboard::{chart_axis, chart_bounds, chart_runs, chart_series};

fn run(id: i32, user: i64, millis: i128, at: i64) -> PartialRun {
    PartialRun {
        id,
        section_id: 1,
        user: PartialUser { user_id: user, username: format!("u{user}") },
        time: RunTime { mantissa: millis, scale: 3 },
        proof: format!("https://youtube.com/watch?v={id}"),
        yt_id: Some(format!("{id}")),
        verified: id % 2 == 0,
        is_pb: false,
        is_wr: false,
        created_at: Timestamp { secs: at, nanos: 0 },
    }
}

fn ids(runs: &[PartialRun]) -> Vec<i32> {
    runs.iter().map(|r| r.id).collect()
}

fn history() -> Vec<PartialRun> {
    vec![
        run(1, 10, 20_000, 100),
        run(2, 11, 19_500, 200),
        run(3, 10, 19_800, 300),
        run(4, 11, 19_600, 400),
        run(5, 10, 19_000, 500),
        run(6, 12, 19_000, 600),
    ]
}

#[test]
fn filter_keys_choose_filters() {
    assert_eq!(run_filter(&None), RunFilter::IsPb);
    assert_eq!(run_filter(&Some("verified".into())), RunFilter::Verified);
    assert_eq!(run_filter(&Some("was_pb".into())), RunFilter::WasPb);
    assert_eq!(run_filter(&Some("is_pb".into())), RunFilter::IsPb);
    assert_eq!(run_filter(&Some("was_wr".into())), RunFilter::WasWr);
    assert_eq!(run_filter(&Some("is_wr".into())), RunFilter::IsWr);
    assert_eq!(run_filter(&Some("none".into())), RunFilter::All);
}

#[test]
fn was_wr_keeps_the_record_history() {
    let kept = filter_runs(&history(), RunFilter::WasWr);
    assert_eq!(ids(&kept), vec![1, 2, 5]);
}

#[test]
fn was_pb_keeps_each_players_improvements() {
    let kept = filter_runs(&history(), RunFilter::WasPb);
    assert_eq!(ids(&kept), vec![1, 2, 3, 5, 6]);
}

#[test]
fn other_filters() {
    let mut runs = history();
    runs[4].is_pb = true;
    runs[4].is_wr = true;
    runs[3].is_pb = true;
    assert_eq!(ids(&filter_runs(&runs, RunFilter::IsPb)), vec![4, 5]);
    assert_eq!(ids(&filter_runs(&runs, RunFilter::IsWr)), vec![5]);
    assert_eq!(ids(&filter_runs(&runs, RunFilter::Verified)), vec![2, 4, 6]);
    assert_eq!(ids(&filter_runs(&runs, RunFilter::All)), vec![1, 2, 3, 4, 5, 6]);
}

#[test]
fn filter_updates_running_bests() {
    let mut best = RunTime::ceiling();
    let mut bests: HashMap<i64, RunTime> = HashMap::new();
    let runs = history();
    assert!(filter(&runs[0], Some("was_wr".into()), &mut best, &mut bests));
    assert_eq!(best, RunTime { mantissa: 20_000, scale: 3 });
    assert!(!filter(&runs[0], Some("was_wr".into()), &mut best, &mut bests));
    assert!(filter(&runs[2], Some("was_wr".into()), &mut best, &mut bests));
    assert_eq!(best, RunTime { mantissa: 19_800, scale: 3 });
    assert!(filter(&runs[0], Some("was_pb".into()), &mut best, &mut bests));
    assert_eq!(bests.get(&10), Some(&RunTime { mantissa: 20_000, scale: 3 }));
    assert!(!filter(&runs[0], Some("was_pb".into()), &mut best, &mut bests));
    assert!(filter(&runs[0], Some("anything".into()), &mut best, &mut bests));
    assert!(!filter(&runs[0], None, &mut best, &mut bests));
}

#[test]
fn unknown_filter_keeps_every_run() {
    let runs = history();
    assert_eq!(filter_runs(&runs, run_filter(&Some("whatever".into()))).len(), runs.len());
}

#[test]
fn equal_times_in_other_scales_compare_equal() {
    let runs = vec![run(1, 10, 19_000, 100), {
        let mut r = run(2, 11, 0, 200);
        r.time = RunTime { mantissa: 190, scale: 1 };
        r
    }];
    assert_eq!(ids(&filter_runs(&runs, RunFilter::WasWr)), vec![1]);
}

#[test]
fn sort_keys_choose_orders() {
    assert_eq!(sort(None), SortOrder::Time);
    assert_eq!(sort(Some("date".into())), SortOrder::Date);
    assert_eq!(sort(Some("time".into())), SortOrder::TimeThenDate);
}

#[test]
fn sorting_orders_runs() {
    let runs = history();
    assert_eq!(ids(&sort_runs(SortOrder::Date, runs.clone())), vec![6, 5, 4, 3, 2, 1]);
    assert_eq!(ids(&sort_runs(SortOrder::TimeThenDate, runs.clone())), vec![5, 6, 2, 4, 3, 1]);
    let by_time = sort_runs(SortOrder::Time, runs);
    assert_eq!(by_time[0].time, RunTime { mantissa: 19_000, scale: 3 });
    assert_eq!(ids(&by_time[2..]), vec![2, 4, 3, 1]);
}

#[test]
fn players_are_selected_by_route_parameter() {
    assert_eq!(player_key(&None), None);
    assert_eq!(player_key(&Some("11".into())), Some(11));
    assert_eq!(player_key(&Some("eleven".into())), Some(-1));
    assert_eq!(ids(&select_player(&history(), Some(11))), vec![2, 4]);
    assert_eq!(select_player(&history(), None).len(), 6);
}

#[test]
fn entry_runs_are_numbered_after_sorting() {
    let entries = entry_runs(&history(), None, Some("was_wr".into()), Some("time".into()));
    let got: Vec<(usize, i32)> = entries.iter().map(|(i, r)| (*i, r.id)).collect();
    assert_eq!(got, vec![(0, 5), (1, 2), (2, 1)]);
    let mine = entry_runs(&history(), Some("10".into()), Some("was_pb".into()), Some("date".into()));
    let got: Vec<(usize, i32)> = mine.iter().map(|(i, r)| (*i, r.id)).collect();
    assert_eq!(got, vec![(0, 5), (1, 3), (2, 1)]);
}

#[test]
fn head_of_a_time_sorted_entry_is_fastest() {
    let entries = entry_runs(&history(), None, Some("none".into()), None);
    let head = &entries[0].1;
    assert!(entries.iter().all(|(_, r)| head.time.mantissa <= r.time.mantissa));
}

#[test]
fn chart_plots_improvements_oldest_first() {
    let mut runs = history();
    runs.reverse();
    let plotted = chart_runs(&runs, &None);
    assert_eq!(ids(&plotted), vec![1, 2, 3, 5, 6]);
    let mine = chart_runs(&runs, &Some("11".into()));
    assert_eq!(ids(&mine), vec![2]);
    let (min, max) = chart_bounds(&plotted);
    assert_eq!(min, RunTime { mantissa: 19_000, scale: 3 });
    assert_eq!(max, RunTime { mantissa: 20_000, scale: 3 });
    let slow = vec![run(9, 1, 95_000, 0)];
    let (min, max) = chart_bounds(&slow);
    assert_eq!(min, RunTime { mantissa: 90, scale: 0 });
    assert_eq!(max, RunTime { mantissa: 0, scale: 0 });
}

#[test]
fn chart_axis_is_rounded_to_tenths() {
    let runs = vec![run(1, 10, 19_234, 0), run(2, 11, 25_671, 1), run(3, 12, 95_000, 2)];
    let (min, max) = chart_axis(&runs);
    assert_eq!(min, RunTime { mantissa: 192, scale: 1 });
    assert_eq!(max, RunTime { mantissa: 257, scale: 1 });
    let (min, max) = chart_axis(&vec![]);
    assert_eq!(min, RunTime { mantissa: 90, scale: 0 });
    assert_eq!(max, RunTime { mantissa: 0, scale: 0 });
}

#[test]
fn chart_series_group_runs_by_player() {
    let runs = vec![run(1, 10, 20_000, 0), run(2, 11, 19_000, 1), run(3, 10, 18_000, 2)];
    let series = chart_series(&runs);
    assert_eq!(series, vec![("u10".to_string(), vec![0, 2]), ("u11".to_string(), vec![1])]);
}

#[test]
fn chart_keeps_runs_of_one_instant_in_order() {
    let runs = vec![run(1, 10, 20_000, 5), run(2, 11, 19_000, 5), run(3, 12, 18_000, 1)];
    assert_eq!(ids(&chart_runs(&runs, &None)), vec![3, 1, 2]);
}
