use lsl::auth::User;
use lsl::catalog::{layouts, leaderboard_categories, patches, ranking_categories, ranking_legend, title_requirement};
use lsl::fragment::{ChildrenSelectFragment, IntoSelectFragment, SelectFragment, ViewFragment};
use lsl::markup::escape_text;
use lsl::time::Timestamp;
use lsl::types::{Activity, ApiError, PartialUser, Proof, Title};
use lsl::view::{
    activity_row, leaderboard_category, page_bar, Collapsible, Header, Leaderboard, ListElements,
    ManageSections, ManageUsers, PageBar, Player, Profile, RankingLegend, Table, TableLine, UserRanking,
};
use lsl::view::{nav_links, player_step, PlayerEvent, PlayerState};
use lsl::view::{activity_change, is_last_page, page_offset, page_start, rank_label, run_status, time_ago};

fn pairs(v: &[(&str, &str)]) -> Vec<(String, String)> {
    v.iter().map(|(a, b)| (a.to_string(), b.to_string())).collect()
}

#[test]
fn layouts_per_patch() {
    assert_eq!(layouts("1.00"), pairs(&[("1", "Layout 1"), ("2", "Layout 2")]));
    assert_eq!(layouts("1.41").len(), 4);
    assert_eq!(layouts("2.13").last().unwrap(), &("5".to_string(), "Layout 5".to_string()));
    assert!(layouts("3.00").is_empty());
}

#[test]
fn patches_and_categories() {
    assert_eq!(patches().len(), 5);
    assert_eq!(patches()[4], ("2.13".to_string(), "Patch 2.13".to_string()));
    assert_eq!(leaderboard_categories(), pairs(&[("standard", "Standard"), ("gravspeed", "Gravspeed")]));
    assert_eq!(ranking_categories("1.50").len(), 3);
    assert_eq!(ranking_categories("1.50")[2], (None, "Combined".to_string()));
    assert_eq!(ranking_categories("2.13").len(), 2);
    assert!(ranking_categories("9.99").is_empty());
}

#[test]
fn title_requirements() {
    assert_eq!(title_requirement("1.41", &Title::Surfer), "300 or more rating points");
    assert_eq!(title_requirement("2.00", &Title::MythicSurfer), "2750 or more rating points");
    assert_eq!(title_requirement("2.13", &Title::LegendarySurfer), "7500 or more rating points");
    assert_eq!(title_requirement("2.13", &Title::TopOne), "Most points in the ranking");
    assert_eq!(title_requirement("0.1", &Title::Surfer), "Unknown patch selected");
    let legend = ranking_legend("2.13");
    assert_eq!(legend.len(), 6);
    assert_eq!(legend[0], (Title::Surfer, "1500 or more rating points".to_string()));
    assert_eq!(legend[5].0, Title::TopOne);
}

#[test]
fn thresholds_rise_with_titles() {
    for patch in ["1.00", "2.00", "2.13"] {
        let legend = ranking_legend(patch);
        let points: Vec<u32> = legend[..5].iter().map(|(_, s)| s.split(' ').next().unwrap().parse().unwrap()).collect();
        assert!(points.windows(2).all(|w| w[0] < w[1]));
    }
}

#[test]
fn text_is_escaped() {
    assert_eq!(escape_text("<b>&\"x\""), "&lt;b&gt;&amp;\"x\"");
    assert!(!escape_text("<script>").contains('<'));
}

#[test]
fn collapsible_blocks() {
    let open = Collapsible("more", "Head", false, "<p>x</p>");
    assert!(open.starts_with("<details><summary class=\"row narrow\" aria-details=\"more\">"));
    assert!(open.ends_with("<div class=\"inner\"><p>x</p></div></div></div>"));
    let swapped = Collapsible("more", "Head", true, "<p>x</p>");
    assert!(swapped.starts_with("<div role=\"definition\" id=\"more\""));
    assert!(swapped.ends_with("</summary></details>"));
}

#[test]
fn header_groups_are_placed() {
    let h = Header(&vec!["a".into(), "b".into(), "c".into()]);
    assert_eq!(h, "<header><nav class=\"row nav\"><ul>a</ul><ul class=\"middle\">b</ul><ul class=\"right\">c</ul></nav></header>");
    let one = Header(&vec!["a".into()]);
    assert_eq!(one, "<header><nav class=\"row nav\"><ul>a</ul></nav></header>");
}

#[test]
fn lists_tables_and_lines() {
    assert_eq!(ListElements(&vec!["x".into(), "y".into()]), "<li>x</li><li>y</li>");
    assert_eq!(TableLine(&vec!["1".into(), "2".into()]), "<span>1</span><span>2</span>");
    assert_eq!(
        Table(&vec!["a<b".into()], &vec!["r1".into()]),
        "<div class=\"grid\"><span class=\"heading\">a&lt;b</span><div class=\"divider header\"></div>r1<div class=\"divider\"></div></div>"
    );
}

#[test]
fn ranking_legend_markup() {
    let m = RankingLegend(&vec![(Title::SuperSurfer, "1000 & up".into())]);
    assert_eq!(
        m,
        "<div class=\"legend row narrow\"><div class=\"tooltip-box\"><span class=\"Super Surfer bg title\" aria-describedby=\"tooltip-0\">Super Surfer</span><span role=\"tooltip\" id=\"tooltip-0\" class=\"tooltip\">1000 &amp; up</span></div></div>"
    );
}

#[test]
fn player_states() {
    let yt = Some(Proof { yt_id: Some("abc".into()), url: "https://youtube.com/watch?v=abc".into() });
    let link = Some(Proof { yt_id: None, url: "https://example.com/v".into() });
    let playing = Player(&yt, "Ruins", true);
    assert!(playing.contains("https://www.youtube-nocookie.com/embed/abc?autoplay=1&amp;rel=0"));
    let paused = Player(&yt, "Ruins", false);
    assert!(paused.contains("<button class=\"play-wrapper\">"));
    assert!(paused.contains("alt=\"Picture of Ruins\""));
    let linked = Player(&link, "Ruins", false);
    assert!(linked.contains("<a href=\"https://example.com/v\" class=\"play-wrapper\""));
    let empty = Player(&None, "Ruins", false);
    assert!(!empty.contains("buttons"));
    assert!(empty.contains("/cdn/maps/Ruins.jpg"));
}

#[test]
fn placeholder_pages() {
    assert_eq!(ManageSections(), "<h1>Placeholder</h1>");
    assert_eq!(ManageUsers(), "<h1>Placeholder</h1>");
    assert_eq!(
        UserRanking(1, &vec![]),
        "<section id=\"ranking\"><h1>Coming</h1><img src=\"/soon.jpg\" alt=\"soon tm\"/></section>"
    );
}

#[test]
fn profile_page() {
    assert_eq!(Profile(&None), "<section id=\"profile\">Fetching User</section>");
    assert_eq!(Profile(&Some(Err(ApiError::NotFound))), "<section id=\"profile\"></section>");
    let mut u = User::default();
    u.username = "a<b".into();
    let page = Profile(&Some(Ok(u)));
    assert!(page.contains("<h1>a&lt;b</h1>"));
    assert!(page.contains("src=\"/cdn/users/default.jpg\""));
    assert!(page.contains("<p>This user has no about me.</p>"));
}

#[test]
fn leaderboard_page() {
    assert_eq!(leaderboard_category("standard"), "Standard");
    assert_eq!(leaderboard_category("gravspeed"), "Gravspeed");
    assert_eq!(Leaderboard(&None), "<p>Loading...</p>");
    assert_eq!(Leaderboard(&Some(Err(ApiError::InvalidSection))), "<p>Invalid Section</p>");
    assert_eq!(Leaderboard(&Some(Ok(vec!["<a/>".into(), "<b/>".into()]))), "<div id=\"lb\"><a/><b/></div>");
}

#[test]
fn activity_rows() {
    let a = Activity {
        id: 1,
        user: PartialUser { user_id: 2, username: "zoom".into() },
        rank_id: Some(3),
        patch: Some("2.13".into()),
        layout: None,
        category: Some("Standard".into()),
        title_old: None,
        title_new: Some(Title::Surfer),
        rank_old: Some(4),
        rank_new: None,
        created_at: Timestamp { secs: 0, nanos: 0 },
    };
    assert_eq!(
        activity_row(&a, "01/01/2025 10:00"),
        "<span>01/01/2025 10:00</span><span>zoom</span><span>Patch 2.13</span><span>-</span><span>Standard</span><span class=\" color\">-</span><span class=\"Surfer color\">Surfer</span><span class=\"rank-4 color\">#4</span><span class=\"rank- color\">-</span><div class=\"divider\"></div>"
    );
}

#[test]
fn page_bars() {
    assert_eq!(page_bar(0, false), PageBar { shown: 1, previous: None, next: Some(1) });
    assert_eq!(page_bar(3, true), PageBar { shown: 4, previous: Some(2), next: None });
}

#[test]
fn fragments() {
    let v = ViewFragment::new(|| vec!["<p>a</p>".to_string()]);
    assert_eq!(v.run(), vec!["<p>a</p>".to_string()]);
    let s = SelectFragment::new(pairs(&[("1", "One")]));
    assert_eq!(s.nodes, pairs(&[("1", "One")]));
    let from_vec = pairs(&[("a", "A"), ("b", "B")]).into_select_fragment();
    assert_eq!(from_vec.nodes.len(), 2);
    let children = ChildrenSelectFragment(|| SelectFragment::new(pairs(&[("x", "X")])));
    let f = children.into_inner();
    assert_eq!(f().nodes, pairs(&[("x", "X")]));
}

#[test]
fn paging() {
    assert_eq!(page_offset(&None), 0);
    assert_eq!(page_offset(&Some("3".into())), 3);
    assert_eq!(page_start(3), 150);
    assert!(is_last_page(49));
    assert!(!is_last_page(50));
}

#[test]
fn rank_labels_and_statuses() {
    assert_eq!(rank_label(&None, 0), Some("#1".to_string()));
    assert_eq!(rank_label(&Some("time".into()), 9), Some("#10".to_string()));
    assert_eq!(rank_label(&Some("date".into()), 9), None);
    let mut r = lsl::types::PartialRun {
        id: 1,
        section_id: 1,
        user: PartialUser { user_id: 1, username: "a".into() },
        time: lsl::time::RunTime { mantissa: 1, scale: 0 },
        proof: String::new(),
        yt_id: None,
        verified: false,
        is_pb: false,
        is_wr: false,
        created_at: Timestamp { secs: 0, nanos: 0 },
    };
    assert_eq!(run_status(&r), "Unverified");
    r.verified = true;
    assert_eq!(run_status(&r), "Verified");
    r.is_pb = true;
    assert_eq!(run_status(&r), "Personal Best");
    r.is_wr = true;
    assert_eq!(run_status(&r), "World Record");
}

#[test]
fn times_ago() {
    let now = Timestamp { secs: 1_000_000, nanos: 0 };
    let at = |s: i64| Timestamp { secs: 1_000_000 - s, nanos: 0 };
    assert_eq!(time_ago(&now, &at(125)), "2m 5s ago");
    assert_eq!(time_ago(&now, &at(3 * 3600 + 7 * 60 + 9)), "3h 7m ago");
    assert_eq!(time_ago(&now, &at(2 * 86400 + 5 * 3600)), "2d 5h ago");
    assert_eq!(time_ago(&now, &now), "0m 0s ago");
}

#[test]
fn activity_changes() {
    let mut a = Activity {
        id: 1,
        user: PartialUser { user_id: 2, username: "zoom".into() },
        rank_id: None,
        patch: None,
        layout: None,
        category: None,
        title_old: None,
        title_new: None,
        rank_old: None,
        rank_new: None,
        created_at: Timestamp { secs: 0, nanos: 0 },
    };
    assert_eq!(activity_change(&a), "<div class=\"row\"><h5>User Joined</h5><h6></h6></div><h6>for zoom</h6>");
    a.rank_old = Some(5);
    a.rank_new = Some(3);
    assert_eq!(
        activity_change(&a),
        "<div class=\"row\"><h5 class=\"rank-5 color\">#5</h5><h6>to</h6><h5 class=\"rank-3 color\">#3</h5></div><h6>for zoom</h6>"
    );
    a.title_old = Some(Title::Surfer);
    a.title_new = Some(Title::SuperSurfer);
    assert!(activity_change(&a).starts_with("<div class=\"row\"><h5 class=\"Surfer color\">Surfer</h5><h6>to</h6><h5 class=\"Super Surfer color\">"));
}

#[test]
fn filter_forms_and_selects() {
    assert_eq!(
        lsl::view::Filter(&vec!["a".into(), "b".into()]),
        "<form method=\"GET\" action=\"\"><div class=\"row\"><div class=\"input-box\">a</div><div class=\"input-box\">b</div></div><input type=\"submit\" class=\"button\" value=\"Apply\"/></form>"
    );
    let opts = SelectFragment::new(pairs(&[("asc", "Ascending"), ("desc", "Descending")]));
    let by_default = lsl::view::Select("order", "Order By", 1, &opts, &None);
    assert_eq!(
        by_default,
        "<label for=\"order\" class=\"indicator\">Order By</label><select class=\"select\" name=\"order\" id=\"order\" autocomplete=\"off\"><option value=\"asc\">Ascending</option><option value=\"desc\" selected=\"\">Descending</option></select>"
    );
    let chosen = lsl::view::Select("order", "Order By", 1, &opts, &Some("asc".into()));
    assert!(chosen.contains("<option value=\"asc\" selected=\"\">Ascending</option><option value=\"desc\">Descending</option>"));
}

#[test]
fn run_table_rows() {
    let run = lsl::types::Run {
        id: 1,
        section: lsl::types::PartialSection {
            id: 2,
            patch: "2.13".into(),
            layout: "4".into(),
            category: "Gravspeed".into(),
            map: "Ilios".into(),
            submittable: true,
        },
        user: PartialUser { user_id: 3, username: "a&b".into() },
        time: lsl::time::RunTime { mantissa: 45_678, scale: 3 },
        proof: "https://youtube.com/watch?v=x".into(),
        yt_id: Some("x".into()),
        verified: true,
        is_pb: false,
        is_wr: false,
        created_at: Timestamp { secs: 0, nanos: 0 },
    };
    assert_eq!(lsl::view::run_table_headers().len(), 8);
    assert_eq!(
        lsl::view::run_cells(&run, "01/02/2025 10:00"),
        vec![
            "01/02/2025 10:00".to_string(),
            "a&amp;b".to_string(),
            "Patch 2.13".to_string(),
            "Layout 4".to_string(),
            "Gravspeed".to_string(),
            "Ilios".to_string(),
            "<a href=\"https://youtube.com/watch?v=x\">link</a>".to_string(),
            "45.678".to_string(),
        ]
    );
    assert_eq!(lsl::view::category_link("gravspeed", "?sort=time"), "../gravspeed?sort=time");
    assert_eq!(lsl::view::layout_link("3", "standard", ""), "../../3/standard");
}

#[test]
fn route_ids() {
    assert_eq!(lsl::catalog::map_route_id("42"), 42);
    assert_eq!(lsl::catalog::map_route_id("abc"), 0);
    assert_eq!(lsl::catalog::user_route_id("-7"), -7);
    assert_eq!(lsl::catalog::user_route_id(""), 0);
}

#[test]
fn ranking_rows() {
    assert_eq!(
        lsl::view::ranking_row(1, &Title::TopOne, 7, "zoom", "9500"),
        "<div class=\"grid-row\"><div class=\"rank Rank 1 bg rank-1\"><h5>1</h5></div><a href=\"/user/7/ranking\"><h4 class=\"name\">zoom</h4></a><div class=\"rating row narrow\"><h4 class=\"Rank 1 color\">9500</h4><h6>RP</h6></div></div>"
    );
    assert!(lsl::view::ranking_row(12, &Title::Surfer, 7, "zoom", "1501").contains("class=\"rank Surfer bg\""));
}

#[test]
fn leaderboard_entry_parts() {
    let run = lsl::types::PartialRun {
        id: 1,
        section_id: 9,
        user: PartialUser { user_id: 3, username: "zoom".into() },
        time: lsl::time::RunTime { mantissa: 19_250, scale: 3 },
        proof: String::new(),
        yt_id: None,
        verified: true,
        is_pb: true,
        is_wr: true,
        created_at: Timestamp { secs: 0, nanos: 0 },
    };
    assert_eq!(
        lsl::view::entry_header(9, "Ruins", &vec![(0, run)]),
        "<div class=\"header\"><a href=\"../../../map/9\"><h2>Ruins</h2></a><a href=\"/user/3/leaderboard\"><h5>zoom</h5></a><h5>19.250 seconds</h5></div>"
    );
    assert_eq!(lsl::view::entry_header(9, "Ruins", &vec![]), "<div class=\"header\"><a href=\"../../../map/9\"><h2>Ruins</h2></a></div>");
    assert_eq!(lsl::view::entry_ranks(&vec![]), "<span class=\"no-data\">No Runs Found</span>");
    assert_eq!(lsl::view::MapRunList(&vec![]), "<h2>No Runs Found</h2>");
    assert_eq!(lsl::view::MapRunList(&vec!["<a/>".into(), "<b/>".into()]), "<a/><b/>");
}

#[test]
fn player_stops_when_the_proof_changes() {
    let video = |url: &str| Some(Proof { yt_id: Some("abc".into()), url: url.into() });
    let start = PlayerState { proof: video("https://a"), playing: false };
    let clicked = player_step(start.clone(), PlayerEvent::Click);
    assert!(clicked.playing);
    let same = player_step(clicked.clone(), PlayerEvent::Select(video("https://a")));
    assert!(same.playing);
    let other = player_step(clicked.clone(), PlayerEvent::Select(video("https://b")));
    assert!(!other.playing);
    assert_eq!(other.proof, video("https://b"));
    let cleared = player_step(clicked, PlayerEvent::Select(None));
    assert!(!cleared.playing);
    let again = player_step(cleared, PlayerEvent::Select(video("https://a")));
    assert!(!again.playing);
}

#[test]
fn player_plays_only_a_youtube_proof() {
    let link = Some(Proof { yt_id: None, url: "https://a".into() });
    let s = player_step(PlayerState { proof: link, playing: false }, PlayerEvent::Click);
    assert!(!s.playing);
    let none = player_step(PlayerState { proof: None, playing: false }, PlayerEvent::Click);
    assert!(!none.playing);
}

#[test]
fn navigation_for_visitor_and_player() {
    assert_eq!(nav_links(&None), "<li><a href=\"/login\">Login</a></li>");
    let mut u = User::default();
    u.id = 42;
    u.pfp = "a&b".into();
    let html = nav_links(&Some(u));
    assert!(html.starts_with("<li><a href=\"/user/42/leaderboard\"><img src=\"/cdn/users/a&amp;b.jpg\"/></a></li>"));
    assert_eq!(html.matches("<li>").count(), 6);
    assert!(html.contains("<li><a href=\"/user/42/leaderboard\">Profile</a></li>"));
    assert!(html.contains("<li><a href=\"/user/@me/submit\">Submit</a></li>"));
    assert!(html.contains("<li><a href=\"/user/@me/dashboard\">Dashboard</a></li>"));
    assert!(html.contains("<li><a href=\"/user/@me/manage\">Manage Runs</a></li>"));
    assert!(html.ends_with("<li><button type=\"button\" class=\"dropdown-title\">Log Out</button></li></ul></li>"));
}

#[test]
fn home_lists_five() {
    assert_eq!(lsl::home::first_five(vec![1, 2, 3, 4, 5, 6, 7]), vec![1, 2, 3, 4, 5]);
    assert_eq!(lsl::home::first_five(vec![1, 2]), vec![1, 2]);
}

#[test]
fn empty_views_and_select_children() {
    let empty = ViewFragment::<fn() -> Vec<String>>::default();
    assert!(empty.run().is_empty());
    let c = ChildrenSelectFragment::to_children(|| SelectFragment::new(pairs(&[("a", "A")])));
    assert_eq!((c.0)().nodes.len(), 1);
}

#[test]
fn navigation_writes_negative_and_extreme_ids() {
    let mut u = User::default();
    u.id = i64::MIN;
    assert!(nav_links(&Some(u)).starts_with("<li><a href=\"/user/-9223372036854775808/leaderboard\">"));
    let mut u = User::default();
    u.id = 0;
    assert!(nav_links(&Some(u)).starts_with("<li><a href=\"/user/0/leaderboard\">"));
}
