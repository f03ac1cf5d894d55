use lsl::notify::{
    activity_notice, comparison, elapsed, join_embed, map_thumbnail, metadata_key, ranks_role_connection,
    run_embed, run_lines, run_notice, run_place, syncs_role, title_embed, title_role_connection,
    token_fresh, ActivityNotice, Elapsed, RankTitle, RunNotice, JOIN_COLOR, PB_COLOR, TITLE_LOST_COLOR,
    WR_COLOR,
};
use lsl::time::{RunTime, Timestamp};
use lsl::types::{Activity, PartialRun, PartialSection, PartialUser, Run, Title};

fn new_run(is_pb: bool, is_wr: bool) -> Run {
    Run {
        id: 77,
        section: PartialSection {
            id: 3,
            patch: "2.13".into(),
            layout: "1".into(),
            category: "Standard".into(),
            map: "Kanezaka's Rooftop".into(),
            submittable: true,
        },
        user: PartialUser { user_id: 5, username: "zoom".into() },
        time: RunTime { mantissa: 19_250, scale: 3 },
        proof: "https://youtube.com/watch?v=NEW".into(),
        yt_id: Some("NEW".into()),
        verified: true,
        is_pb,
        is_wr,
        created_at: Timestamp { secs: 1_000_000 + 2 * 604800 + 3 * 86400 + 4 * 3600 + 5 * 60 + 6, nanos: 0 },
    }
}

fn old_run() -> PartialRun {
    PartialRun {
        id: 70,
        section_id: 3,
        user: PartialUser { user_id: 6, username: "slow".into() },
        time: RunTime { mantissa: 20_000, scale: 3 },
        proof: "https://youtube.com/watch?v=OLD".into(),
        yt_id: Some("OLD".into()),
        verified: true,
        is_pb: false,
        is_wr: false,
        created_at: Timestamp { secs: 1_000_000, nanos: 0 },
    }
}

fn activity() -> Activity {
    Activity {
        id: 1,
        user: PartialUser { user_id: 5, username: "zoom".into() },
        rank_id: Some(9),
        patch: Some("2.13".into()),
        layout: None,
        category: None,
        title_old: None,
        title_new: None,
        rank_old: None,
        rank_new: None,
        created_at: Timestamp { secs: 0, nanos: 0 },
    }
}

#[test]
fn runs_are_announced_by_kind() {
    assert_eq!(run_notice(&new_run(true, true)), RunNotice::WorldRecord);
    assert_eq!(run_notice(&new_run(true, false)), RunNotice::PersonalBest);
    assert_eq!(run_notice(&new_run(false, false)), RunNotice::NoNotice);
}

#[test]
fn activities_are_announced_by_kind() {
    let mut a = activity();
    assert_eq!(activity_notice(&a), ActivityNotice::Joined);
    a.rank_old = Some(3);
    a.rank_new = Some(2);
    assert_eq!(activity_notice(&a), ActivityNotice::RankChange);
    a.title_old = Some(Title::Surfer);
    assert_eq!(activity_notice(&a), ActivityNotice::RankChange);
    a.title_new = Some(Title::SuperSurfer);
    assert_eq!(activity_notice(&a), ActivityNotice::TitleChange);
    assert!(syncs_role(&a));
    a.layout = Some("1".into());
    assert!(!syncs_role(&a));
}

#[test]
fn map_thumbnails_are_percent_encoded() {
    assert_eq!(map_thumbnail("Kanezaka's Rooftop"), "https://lucio.surf/cdn/maps/Kanezaka%27s%20Rooftop.jpg");
    assert_eq!(map_thumbnail("a-b_c.d~e"), "https://lucio.surf/cdn/maps/a-b_c.d~e.jpg");
    assert_eq!(map_thumbnail("Ilios é"), "https://lucio.surf/cdn/maps/Ilios%20%C3%A9.jpg");
}

#[test]
fn run_texts() {
    let r = new_run(true, false);
    assert_eq!(run_place(&r), "Patch: *2.13*\nLayout: *1*\nCategory: *Standard*\nMap: *Kanezaka's Rooftop*");
    assert_eq!(
        run_lines(&r.time, "NEW", &r.created_at),
        format!("Time: *19.250*\nProof: *[link](https://youtube.com/watch?v=NEW)*\nDate: *<t:{}>*", r.created_at.secs)
    );
}

#[test]
fn elapsed_time_is_broken_down() {
    let e = elapsed(&new_run(true, false).created_at, &old_run().created_at);
    assert_eq!(e, Elapsed { weeks: 2, days: 3, hours: 4, mins: 5, secs: 6 });
    let back = elapsed(&Timestamp { secs: 0, nanos: 0 }, &Timestamp { secs: 90, nanos: 500 });
    assert_eq!(back, Elapsed { weeks: 0, days: 0, hours: 0, mins: -1, secs: -30 });
    let total = 604800 * e.weeks + 86400 * e.days + 3600 * e.hours + 60 * e.mins + e.secs;
    assert_eq!(total as i64, new_run(true, false).created_at.secs - old_run().created_at.secs);
}

#[test]
fn comparison_text() {
    let e = Elapsed { weeks: 1, days: 0, hours: 2, mins: 3, secs: 4 };
    assert_eq!(
        comparison(&RunTime { mantissa: 750, scale: 3 }, &e),
        "Time save: *0.750*\nAchieved after: *1 weeks, 0 days, 2 hours, 3 mins, 4 secs*"
    );
}

#[test]
fn personal_best_embed() {
    let e = run_embed(&new_run(true, false), &Some(old_run()), false).unwrap();
    assert_eq!(e.color, PB_COLOR);
    assert_eq!(e.title, "New Personal Best by zoom");
    assert_eq!(e.url, "https://youtube.com/watch?v=NEW");
    assert_eq!(e.footer, "ID: 77");
    assert_eq!(e.fields.len(), 3);
    assert_eq!(e.fields[0].name, "New PB");
    assert!(e.fields[0].value.starts_with("Time: *19.250*"));
    assert_eq!(e.fields[1].name, "Old PB");
    assert!(e.fields[1].value.starts_with("Time: *20.000*\nProof: *[link](https://youtube.com/watch?v=OLD)*"));
    assert_eq!(e.fields[2].name, "Comparison");
    assert_eq!(e.fields[2].value, "Time save: *0.750*\nAchieved after: *2 weeks, 3 days, 4 hours, 5 mins, 6 secs*");
    assert!(e.fields[0].inline && e.fields[1].inline && !e.fields[2].inline);
}

#[test]
fn world_record_embed_without_previous_record() {
    let e = run_embed(&new_run(true, true), &None, true).unwrap();
    assert_eq!(e.color, WR_COLOR);
    assert_eq!(e.title, "New World Record by zoom");
    assert_eq!(e.fields[0].name, "New Record");
    assert!(e.fields[0].value.starts_with("User: *zoom*\nTime: *19.250*"));
    assert_eq!(e.fields[1].value, "User: *none*\nTime: *none*\nProof: *none*\nDate: *none*");
    assert_eq!(e.fields[2].value, "Time save: *undefined*\nAchieved after: *undefined*");
    let with_old = run_embed(&new_run(true, true), &Some(old_run()), true).unwrap();
    assert!(with_old.fields[1].value.starts_with("User: *slow*\nTime: *20.000*"));
}

#[test]
fn title_embeds() {
    let mut a = activity();
    a.title_old = Some(Title::Surfer);
    a.title_new = Some(Title::EpicSurfer);
    let up = title_embed(&a);
    assert_eq!(up.color, WR_COLOR);
    assert_eq!(up.title, "Title update");
    assert_eq!(up.description, "User: *zoom*\nCombo: *Combined*");
    assert_eq!(up.old_name, "Surfer");
    assert_eq!(up.new_name, "Epic Surfer");
    a.title_new = Some(Title::NoTitle);
    a.layout = Some("2".into());
    a.category = Some("Gravspeed".into());
    let down = title_embed(&a);
    assert_eq!(down.color, TITLE_LOST_COLOR);
    assert_eq!(down.description, "User: *zoom*\nCombo: *Layout 2 - Gravspeed*");
    a.title_new = Some(Title::Surfer);
    assert_eq!(title_embed(&a).color, TITLE_LOST_COLOR);
}

#[test]
fn join_embeds() {
    let j = join_embed(&activity());
    assert_eq!(j.color, JOIN_COLOR);
    assert_eq!(j.title, "zoom joined the leaderboards!");
}

#[test]
fn role_connections() {
    let mut a = activity();
    a.title_new = Some(Title::MythicSurfer);
    let c = title_role_connection(&a);
    assert_eq!(c.platform_name, "Lucio Surf League");
    assert_eq!(c.platform_username, "zoom");
    assert_eq!(c.metadata, vec![("2_13".to_string(), 5)]);
    assert_eq!(metadata_key("1.50"), "1_50");
    let rank = |p: &str, t: Title| RankTitle { patch: p.into(), username: "zoom".into(), title: t };
    let ranks = vec![
        rank("2.13", Title::Surfer),
        rank("1.00", Title::TopOne),
        rank("2.13", Title::EpicSurfer),
    ];
    let c = ranks_role_connection(&ranks).unwrap();
    assert_eq!(c.platform_username, "zoom");
    assert_eq!(c.metadata, vec![("1_00".to_string(), 6), ("2_13".to_string(), 3)]);
    assert!(ranks_role_connection(&vec![]).is_none());
}

#[test]
fn tokens_expire() {
    let now = Timestamp { secs: 100, nanos: 0 };
    assert!(token_fresh(&Timestamp { secs: 101, nanos: 0 }, &now));
    assert!(!token_fresh(&Timestamp { secs: 100, nanos: 0 }, &now));
    assert!(!token_fresh(&Timestamp { secs: 50, nanos: 0 }, &now));
}
