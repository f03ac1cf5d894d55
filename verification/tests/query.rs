use lsl::query::{
    activity_filters_from_params, activity_filters_from_readings, activity_query, own_run_filters,
    own_run_filters_from_params, run_filters_from_params, run_filters_from_readings, runs_query,
    LocalReadings, section_update_query, user_runs_query, ActivityFilters, ActivityParams, QueryPart,
    RunFilters, RunParams, SqlArg, ACTIVITY_SELECT, RUNS_SELECT, SECTION_UPDATE, USER_RUNS_SELECT,
};
use lsl::time::{RunTime, Timestamp};
use lsl::types::ApiError;

fn sql(q: &[QueryPart]) -> String {
    q.iter()
        .map(|p| match p {
            QueryPart::Sql(s) => s.clone(),
            QueryPart::Bind(_) => "?".to_string(),
        })
        .collect()
}

fn binds(q: &[QueryPart]) -> Vec<SqlArg> {
    q.iter()
        .filter_map(|p| match p {
            QueryPart::Bind(a) => Some(a.clone()),
            QueryPart::Sql(_) => None,
        })
        .collect()
}

#[test]
fn default_filters_list_newest_first() {
    let f = RunFilters::default();
    assert_eq!(f.sort, "created_at");
    assert!(!f.ascending);
    assert!(f.user.is_none() && f.patch.is_none() && f.before.is_none());
    let a = ActivityFilters::default();
    assert_eq!(a.sort, "created_at");
    assert!(a.event.is_none());
}

#[test]
fn runs_query_without_filters() {
    let q = runs_query(&RunFilters::default(), 100);
    assert_eq!(sql(&q), format!("{RUNS_SELECT} ORDER BY run.created_at DESC LIMIT 50 OFFSET ?;"));
    assert_eq!(binds(&q), vec![SqlArg::Int32(100)]);
}

#[test]
fn runs_query_with_filters() {
    let mut f = RunFilters::default();
    f.user = Some(3);
    f.patch = Some("2.13".into());
    f.faster = Some(RunTime { mantissa: 20_000, scale: 3 });
    f.sort = "section".into();
    f.ascending = true;
    let q = runs_query(&f, 0);
    assert_eq!(
        sql(&q),
        format!(
            "{RUNS_SELECT} AND user_id = ? AND patch = ? AND time <= ? ORDER BY patch ASC, layout ASC, category ASC, map ASC LIMIT 50 OFFSET ?;"
        )
    );
    assert_eq!(
        binds(&q),
        vec![
            SqlArg::Int(3),
            SqlArg::Text("2.13".into()),
            SqlArg::Time(RunTime { mantissa: 20_000, scale: 3 }),
            SqlArg::Int32(0)
        ]
    );
}

#[test]
fn activity_query_events() {
    let mut f = ActivityFilters::default();
    f.event = Some("title".into());
    f.sort = "section".into();
    let q = activity_query(&f, 50);
    assert_eq!(
        sql(&q),
        format!("{ACTIVITY_SELECT} AND title_new IS NOT NULL ORDER BY patch  DESC, layout  DESC, category  DESC LIMIT 50 OFFSET ?;")
    );
    f.event = Some("join".into());
    f.sort = "date".into();
    assert!(sql(&activity_query(&f, 0)).contains(" AND rank_id IS NULL ORDER BY a.created_at  DESC"));
    f.event = Some("other".into());
    assert!(!sql(&activity_query(&f, 0)).contains("IS NULL"));
}

#[test]
fn user_runs_query_reads_the_current_patch() {
    let mut f = RunFilters::default();
    f.layout = Some("2".into());
    f.sort = "time".into();
    let q = user_runs_query(9, &f, 0);
    assert_eq!(sql(&q), format!("{USER_RUNS_SELECT} AND user_id = ? AND layout = ? ORDER BY time DESC LIMIT 50 OFFSET ?;"));
    assert_eq!(binds(&q), vec![SqlArg::Int(9), SqlArg::Text("2".into()), SqlArg::Int32(0)]);
}

#[test]
fn section_update_needs_a_change() {
    assert_eq!(section_update_query(1, None, None), Err(ApiError::InvalidInput));
    let q = section_update_query(4, Some(true), Some("Kanezaka".into())).ok().unwrap();
    assert_eq!(sql(&q), format!("{SECTION_UPDATE} submittable = ?,  map = ? WHERE id = ?"));
    assert_eq!(binds(&q), vec![SqlArg::Bool(true), SqlArg::Text("Kanezaka".into()), SqlArg::Int32(4)]);
    let q = section_update_query(4, None, Some("Kanezaka".into())).ok().unwrap();
    assert_eq!(sql(&q), format!("{SECTION_UPDATE} map = ? WHERE id = ?"));
}

#[test]
fn run_filters_read_from_query_parameters() {
    let p = RunParams {
        user: Some("12".into()),
        patch: Some("".into()),
        layout: Some("3".into()),
        faster: Some("19.5".into()),
        slower: Some("fast".into()),
        before: Some("2024-05-01T12:30".into()),
        sort: Some("".into()),
        order: Some("asc".into()),
        ..Default::default()
    };
    let f = run_filters_from_params(&p);
    assert_eq!(f.user, Some(12));
    assert_eq!(f.patch, None);
    assert_eq!(f.layout, Some("3".to_string()));
    assert_eq!(f.faster, Some(RunTime { mantissa: 195, scale: 1 }));
    assert_eq!(f.slower, None);
    assert!(f.before.is_some());
    assert!(f.after.is_none());
    assert_eq!(f.sort, "date");
    assert!(f.ascending);
    let desc = run_filters_from_params(&RunParams { order: Some("desc".into()), ..Default::default() });
    assert!(!desc.ascending);
    let bad_date = run_filters_from_params(&RunParams { before: Some("yesterday".into()), ..Default::default() });
    assert!(bad_date.before.is_none());
}

#[test]
fn own_run_filters_fix_the_patch() {
    let f = own_run_filters_from_params(&RunParams { user: Some("5".into()), map: Some("Ruins".into()), ..Default::default() });
    assert_eq!(f.user, None);
    assert_eq!(f.patch, Some("2.13".to_string()));
    assert_eq!(f.map, Some("Ruins".to_string()));
}

#[test]
fn activity_filters_read_from_query_parameters() {
    let p = ActivityParams {
        event: Some("rank".into()),
        user: Some("x".into()),
        category: Some("Standard".into()),
        sort: Some("section".into()),
        ..Default::default()
    };
    let f = activity_filters_from_params(&p);
    assert_eq!(f.event, Some("rank".to_string()));
    assert_eq!(f.user, None);
    assert_eq!(f.category, Some("Standard".to_string()));
    assert_eq!(f.sort, "section");
    assert!(!f.ascending);
}

#[test]
fn own_runs_are_the_signed_in_players() {
    let f = lsl::query::own_run_filters(&RunParams { user: Some("99".into()), patch: Some("1.00".into()), ..Default::default() }, 7);
    assert_eq!(f.user, Some(7));
    assert_eq!(f.patch, Some("2.13".to_string()));
}

fn folded_readings() -> Option<LocalReadings> {
    Some(LocalReadings {
        earliest: Timestamp { secs: 1_000, nanos: 0 },
        latest: Timestamp { secs: 4_600, nanos: 0 },
    })
}

#[test]
fn before_bound_takes_latest_reading_and_after_bound_earliest() {
    let p = RunParams { map: Some("Ruins".into()), ..Default::default() };
    let f = run_filters_from_readings(&p, folded_readings(), folded_readings());
    assert_eq!(f.before, Some(Timestamp { secs: 4_600, nanos: 0 }));
    assert_eq!(f.after, Some(Timestamp { secs: 1_000, nanos: 0 }));
    assert_eq!(f.map, Some("Ruins".to_string()));
    let none = run_filters_from_readings(&p, None, None);
    assert_eq!(none.before, None);
    assert_eq!(none.after, None);
    let a = activity_filters_from_readings(&ActivityParams::default(), folded_readings(), None);
    assert_eq!(a.before, Some(Timestamp { secs: 4_600, nanos: 0 }));
    assert_eq!(a.after, None);
}

#[test]
fn date_bounds_are_whole_seconds_within_a_day_of_the_reading() {
    // 2024-05-01T12:30 read as UTC
    let naive: i64 = 1_714_566_600;
    let f = run_filters_from_params(&RunParams {
        before: Some("2024-05-01T12:30:59 extra".into()),
        after: Some("2024-05-01T12:30".into()),
        ..Default::default()
    });
    for t in [f.before.unwrap(), f.after.unwrap()] {
        assert_eq!(t.nanos, 0);
        assert!((t.secs - naive).abs() < 86_400);
    }
    let own = own_run_filters(&RunParams { after: Some("2024-05-01T12:30".into()), ..Default::default() }, 9);
    assert_eq!(own.user, Some(9));
    assert_eq!(own.after, f.after);
    assert_eq!(own.before, None);
}

#[test]
fn player_number_parameter_reads_like_i64_from_str() {
    let user = |s: &str| run_filters_from_params(&RunParams { user: Some(s.into()), ..Default::default() }).user;
    assert_eq!(user("+12"), Some(12));
    assert_eq!(user("-0"), Some(0));
    assert_eq!(user("007"), Some(7));
    assert_eq!(user("9223372036854775807"), Some(i64::MAX));
    assert_eq!(user("9223372036854775808"), None);
    assert_eq!(user("-9223372036854775808"), Some(i64::MIN));
    assert_eq!(user("-9223372036854775809"), None);
    assert_eq!(user("99999999999999999999999999999999999999999x"), None);
    assert_eq!(user("-"), None);
    assert_eq!(user("+"), None);
    assert_eq!(user(""), None);
    assert_eq!(user("1 2"), None);
    assert_eq!(user("١٢"), None);
}
