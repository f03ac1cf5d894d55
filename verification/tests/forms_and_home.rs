use lsl::forms::{code_category_index, code_layout_index, form_error, map_for_code, FormPage};
use lsl::home::{category_ranks, showcase_rank, RankSummary};
use lsl::types::{ApiError, MapCode, Title};

fn maps() -> Vec<MapCode> {
    vec![
        MapCode { name: "Kanezaka".into(), code: "1SKZ0".into() },
        MapCode { name: "Ruins".into(), code: "2GRU1".into() },
        MapCode { name: "Busan".into(), code: "3SKZ9".into() },
    ]
}

fn rank(patch: &str, layout: Option<&str>, category: Option<&str>, r: i32) -> RankSummary {
    RankSummary {
        patch: patch.into(),
        layout: layout.map(Into::into),
        category: category.map(Into::into),
        title: Title::Surfer,
        rank: r,
    }
}

#[test]
fn form_errors() {
    assert_eq!(form_error(FormPage::Login, Some(&ApiError::InvalidCredentials)), "🛈 Incorrect username or password");
    assert_eq!(form_error(FormPage::Login, Some(&ApiError::AlreadyExists)), "🛈 Something went wrong. Try again");
    assert_eq!(form_error(FormPage::Register, Some(&ApiError::AlreadyExists)), "🛈 Username already exists");
    assert_eq!(form_error(FormPage::Submit, Some(&ApiError::InvalidSection)), "🛈 Invalid map name");
    assert_eq!(form_error(FormPage::Submit, Some(&ApiError::InvalidYtId)), "🛈 YT video id does not exist");
    assert_eq!(form_error(FormPage::Submit, None), "🛈 Something went wrong. Try again");
}

#[test]
fn codes_select_layout_and_category() {
    assert_eq!(code_layout_index("3gab"), 2);
    assert_eq!(code_layout_index("x"), -1);
    assert_eq!(code_layout_index(""), 0);
    assert_eq!(code_category_index("1S"), 0);
    assert_eq!(code_category_index("1g"), 1);
    assert_eq!(code_category_index("1x"), -1);
    assert_eq!(code_category_index("1"), 0);
}

#[test]
fn codes_name_maps() {
    assert_eq!(map_for_code(&maps(), "1skz"), Some("Kanezaka".to_string()));
    assert_eq!(map_for_code(&maps(), "2gRu"), Some("Ruins".to_string()));
    assert_eq!(map_for_code(&maps(), "1sxx"), None);
    assert_eq!(map_for_code(&maps(), "1s"), None);
    assert_eq!(map_for_code(&maps(), "1sk"), None);
}

#[test]
fn showcase_picks_the_combined_current_ranking() {
    let ranks = vec![
        rank("2.00", None, None, 9),
        rank("2.13", Some("1"), Some("Standard"), 4),
        rank("2.13", None, None, 2),
    ];
    assert_eq!(showcase_rank(&ranks), Some(2));
    assert_eq!(showcase_rank(&ranks[..2].to_vec()), None);
}

#[test]
fn category_ranks_are_sorted_by_layout() {
    let ranks = vec![
        rank("2.13", Some("3"), Some("Standard"), 1),
        rank("2.13", Some("1"), Some("Gravspeed"), 2),
        rank("2.13", Some("1"), Some("Standard"), 3),
        rank("2.00", Some("2"), Some("Standard"), 4),
        rank("2.13", Some("2"), Some("Standard"), 5),
        rank("2.13", None, Some("Standard"), 6),
        rank("2.13", Some("1"), Some("Standard"), 7),
    ];
    assert_eq!(category_ranks(&ranks, "Standard"), vec![5, 2, 6, 4, 0]);
    assert_eq!(category_ranks(&ranks, "Gravspeed"), vec![1]);
    assert!(category_ranks(&ranks, "Other").is_empty());
}

#[test]
fn account_page_errors() {
    assert_eq!(form_error(FormPage::Delete, Some(&ApiError::Unauthenticated)), "🛈 Please log in");
    assert_eq!(form_error(FormPage::Delete, Some(&ApiError::Unauthorized)), "🛈 Missing permission");
    assert_eq!(form_error(FormPage::Delete, Some(&ApiError::NotFound)), "🛈 Invalid run");
    assert_eq!(form_error(FormPage::Username, Some(&ApiError::AlreadyExists)), "🛈 Username already exists");
    assert_eq!(form_error(FormPage::Password, Some(&ApiError::InvalidCredentials)), "🛈 Incorrect password");
    assert_eq!(form_error(FormPage::Password, Some(&ApiError::NotFound)), "🛈 Something went wrong. Try again");
    assert_eq!(lsl::forms::avatar_form_error(true), "🛈 File must be jpg and under 4 MB");
    assert_eq!(lsl::forms::avatar_form_error(false), "🛈 Something went wrong. Try again");
}

#[test]
fn discord_page_offers_links_below_the_limit() {
    let link = |s: &str| lsl::types::Discord { name: "n".into(), snowflake: s.into() };
    assert!(lsl::auth::can_link_more(&vec![link("1")]));
    assert!(!lsl::auth::can_link_more(&vec![link("1"), link("2"), link("3"), link("4"), link("5")]));
}

#[test]
fn map_codes_are_compared_by_bytes() {
    let maps = vec![
        MapCode { name: "Accented".into(), code: "1sé".into() },
        MapCode { name: "Plain".into(), code: "1SAB0".into() },
    ];
    assert_eq!(map_for_code(&maps, "2gé"), Some("Accented".to_string()));
    assert_eq!(map_for_code(&maps, "1sab"), Some("Plain".to_string()));
}
