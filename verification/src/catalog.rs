//! What the league is made of: its patches, the layouts and categories of each, and the
//! rating a title asks for in each patch.
use crate::text::{i64_text, int_text, str_eq};
use crate::types::Title;
use vstd::prelude::*;

verus! {

/// The number of layouts a patch has (none for a patch the league does not know).
pub open spec fn layout_count(patch: Seq<char>) -> int {
    if patch == "1.00"@ {
        2
    } else if patch == "1.41"@ {
        4
    } else if patch == "1.50"@ || patch == "2.00"@ || patch == "2.13"@ {
        5
    } else {
        0
    }
}

/// The `i`-th entry of the layouts of a patch: its path segment and its label.
pub open spec fn layout_entry(i: int) -> (Seq<char>, Seq<char>) {
    (int_text(i + 1), "Layout "@ + int_text(i + 1))
}

/// The texts of a list of (path segment, label) pairs.
pub open spec fn pairs_view(v: Seq<(String, String)>) -> Seq<(Seq<char>, Seq<char>)> {
    v.map_values(|p: (String, String)| (p.0@, p.1@))
}

/// The layouts of a patch, as (path segment, label) pairs: `("1", "Layout 1")` and on.
pub fn layouts(patch: &str) -> (r: Vec<(String, String)>)
    ensures
        pairs_view(r@) == Seq::new(layout_count(patch@) as nat, |i: int| layout_entry(i)),
{
    let count: i64 = if str_eq(patch, "1.00") {
        2
    } else if str_eq(patch, "1.41") {
        4
    } else if str_eq(patch, "1.50") || str_eq(patch, "2.00") || str_eq(patch, "2.13") {
        5
    } else {
        0
    };
    let mut out: Vec<(String, String)> = Vec::new();
    let mut i: i64 = 0;
    while i < count
        invariant
            0 <= i <= count <= 5,
            count == layout_count(patch@),
            pairs_view(out@) == Seq::new(i as nat, |k: int| layout_entry(k)),
        decreases count - i,
    {
        let segment = i64_text(i + 1);
        let label = String::from_str("Layout ").concat(segment.as_str());
        let ghost entry = (segment@, label@);
        let ghost prev = out@;
        out.push((segment, label));
        proof {
            assert(entry == layout_entry(i as int));
            assert(pairs_view(out@) =~= pairs_view(prev).push(entry));
            assert(pairs_view(out@) =~= Seq::new((i + 1) as nat, |k: int| layout_entry(k)));
        }
        i = i + 1;
    }
    out
}

/// The patches of the league, oldest first, as (path segment, label) pairs.
pub open spec fn spec_patches() -> Seq<(Seq<char>, Seq<char>)> {
    seq![
        ("1.00"@, "Patch 1.00"@),
        ("1.41"@, "Patch 1.41"@),
        ("1.50"@, "Patch 1.50"@),
        ("2.00"@, "Patch 2.00"@),
        ("2.13"@, "Patch 2.13"@),
    ]
}

/// The patches of the league, oldest first.
pub fn patches() -> (r: Vec<(String, String)>)
    ensures
        pairs_view(r@) == spec_patches(),
{
    let r = vec![
        (String::from_str("1.00"), String::from_str("Patch 1.00")),
        (String::from_str("1.41"), String::from_str("Patch 1.41")),
        (String::from_str("1.50"), String::from_str("Patch 1.50")),
        (String::from_str("2.00"), String::from_str("Patch 2.00")),
        (String::from_str("2.13"), String::from_str("Patch 2.13")),
    ];
    proof {
        assert(pairs_view(r@) =~= spec_patches());
    }
    r
}

/// The categories of the leaderboards, as (path segment, label) pairs.
pub open spec fn spec_leaderboard_categories() -> Seq<(Seq<char>, Seq<char>)> {
    seq![("standard"@, "Standard"@), ("gravspeed"@, "Gravspeed"@)]
}

/// The categories of the leaderboards.
pub fn leaderboard_categories() -> (r: Vec<(String, String)>)
    ensures
        pairs_view(r@) == spec_leaderboard_categories(),
{
    let r = vec![
        (String::from_str("standard"), String::from_str("Standard")),
        (String::from_str("gravspeed"), String::from_str("Gravspeed")),
    ];
    proof {
        assert(pairs_view(r@) =~= spec_leaderboard_categories());
    }
    r
}

/// The texts of a list of (optional category, label) pairs.
pub open spec fn options_view(v: Seq<(Option<String>, String)>) -> Seq<(Option<Seq<char>>, Seq<char>)> {
    v.map_values(
        |p: (Option<String>, String)|
            (
                match p.0 {
                    Some(c) => Some(c@),
                    None => None,
                },
                p.1@,
            ),
    )
}

/// The rankings shown under a layout of a patch: one per category, and before the
/// current patch also the combined one (no category).
pub open spec fn spec_ranking_categories(patch: Seq<char>) -> Seq<(Option<Seq<char>>, Seq<char>)> {
    if patch == "1.00"@ || patch == "1.41"@ || patch == "1.50"@ || patch == "2.00"@ {
        seq![
            (Some("Standard"@), "Standard"@),
            (Some("Gravspeed"@), "Gravspeed"@),
            (None, "Combined"@),
        ]
    } else if patch == "2.13"@ {
        seq![(Some("Standard"@), "Standard"@), (Some("Gravspeed"@), "Gravspeed"@)]
    } else {
        Seq::empty()
    }
}

/// The rankings shown under a layout of a patch.
pub fn ranking_categories(patch: &str) -> (r: Vec<(Option<String>, String)>)
    ensures
        options_view(r@) == spec_ranking_categories(patch@),
{
    let mut r: Vec<(Option<String>, String)> = Vec::new();
    if str_eq(patch, "1.00") || str_eq(patch, "1.41") || str_eq(patch, "1.50") || str_eq(patch, "2.00") {
        r.push((Some(String::from_str("Standard")), String::from_str("Standard")));
        r.push((Some(String::from_str("Gravspeed")), String::from_str("Gravspeed")));
        r.push((None, String::from_str("Combined")));
    } else if str_eq(patch, "2.13") {
        r.push((Some(String::from_str("Standard")), String::from_str("Standard")));
        r.push((Some(String::from_str("Gravspeed")), String::from_str("Gravspeed")));
    }
    proof {
        assert(options_view(r@) =~= spec_ranking_categories(patch@));
    }
    r
}

/// The rating points a title asks for in a patch: `None` for the first place, which
/// asks for the most points, for having no title, and for a patch the league does not know.
pub open spec fn rating_threshold(patch: Seq<char>, title: Title) -> Option<int> {
    let era = if patch == "1.00"@ || patch == "1.41"@ || patch == "1.50"@ {
        0int
    } else if patch == "2.00"@ {
        1
    } else if patch == "2.13"@ {
        2
    } else {
        3
    };
    if era == 3 {
        None
    } else {
        match title {
            Title::Surfer => Some(if era == 0 { 300int } else if era == 1 { 150 } else { 1500 }),
            Title::SuperSurfer => Some(if era == 0 { 1000int } else if era == 1 { 500 } else { 3000 }),
            Title::EpicSurfer => Some(if era == 0 { 2000int } else if era == 1 { 1000 } else { 5000 }),
            Title::LegendarySurfer => Some(if era == 0 { 4000int } else if era == 1 { 2000 } else { 7500 }),
            Title::MythicSurfer => Some(if era == 0 { 5500int } else if era == 1 { 2750 } else { 9000 }),
            _ => None,
        }
    }
}

/// What the legend says a title asks for in a patch.
pub open spec fn spec_title_requirement(patch: Seq<char>, title: Title) -> Seq<char> {
    match title {
        Title::TopOne => "Most points in the ranking"@,
        _ => match rating_threshold(patch, title) {
            Some(n) => int_text(n) + " or more rating points"@,
            None => "Unknown patch selected"@,
        },
    }
}

/// What the legend of a ranking says a title asks for in a patch (the legend lists
/// every title but having none).
pub fn title_requirement(patch: &str, title: &Title) -> (r: String)
    requires
        !(*title is NoTitle),
    ensures
        r@ == spec_title_requirement(patch@, *title),
{
    if let Title::TopOne = title {
        return String::from_str("Most points in the ranking");
    }
    let era: u8 = if str_eq(patch, "1.00") || str_eq(patch, "1.41") || str_eq(patch, "1.50") {
        0
    } else if str_eq(patch, "2.00") {
        1
    } else if str_eq(patch, "2.13") {
        2
    } else {
        3
    };
    let points: i64 = match title {
        Title::Surfer => if era == 0 { 300 } else if era == 1 { 150 } else { 1500 },
        Title::SuperSurfer => if era == 0 { 1000 } else if era == 1 { 500 } else { 3000 },
        Title::EpicSurfer => if era == 0 { 2000 } else if era == 1 { 1000 } else { 5000 },
        Title::LegendarySurfer => if era == 0 { 4000 } else if era == 1 { 2000 } else { 7500 },
        Title::MythicSurfer => if era == 0 { 5500 } else if era == 1 { 2750 } else { 9000 },
        _ => 0,
    };
    if era == 3 {
        return String::from_str("Unknown patch selected");
    }
    i64_text(points).concat(" or more rating points")
}

/// The legend of a ranking: each title from the lowest to the first place, with what it
/// asks for in the patch.
pub fn ranking_legend(patch: &str) -> (r: Vec<(Title, String)>)
    ensures
        r@.len() == 6,
        forall|i: int| 0 <= i < 6 ==> (#[trigger] r@[i]).0.spec_level() == i + 1,
        forall|i: int| 0 <= i < 6 ==> (#[trigger] r@[i]).1@ == spec_title_requirement(patch@, r@[i].0),
{
    let titles = [
        Title::Surfer,
        Title::SuperSurfer,
        Title::EpicSurfer,
        Title::LegendarySurfer,
        Title::MythicSurfer,
        Title::TopOne,
    ];
    let mut r: Vec<(Title, String)> = Vec::new();
    for i in 0..6usize
        invariant
            titles@ == seq![
                Title::Surfer,
                Title::SuperSurfer,
                Title::EpicSurfer,
                Title::LegendarySurfer,
                Title::MythicSurfer,
                Title::TopOne,
            ],
            r@.len() == i,
            forall|k: int| 0 <= k < i ==> (#[trigger] r@[k]).0.spec_level() == k + 1,
            forall|k: int| 0 <= k < i ==> (#[trigger] r@[k]).1@ == spec_title_requirement(patch@, r@[k].0),
    {
        let t = titles[i];
        r.push((t, title_requirement(patch, &t)));
    }
    r
}

/// In every patch the league knows, a higher title asks for more rating points.
pub proof fn lemma_thresholds_rise(patch: Seq<char>, lower: Title, higher: Title)
    requires
        rating_threshold(patch, lower) is Some,
        rating_threshold(patch, higher) is Some,
        lower.spec_level() < higher.spec_level(),
    ensures
        rating_threshold(patch, lower).unwrap() < rating_threshold(patch, higher).unwrap(),
{
}

/// The section a map route names: its `map` parameter as a number, or 0 where it is none.
pub fn map_route_id(param: &str) -> (r: i32)
    ensures
        r == match crate::text::spec_parse_i32(param@) {
            Some(v) => v,
            None => 0,
        },
{
    match crate::text::parse_i32(param) {
        Some(v) => v,
        None => 0,
    }
}

/// The player a user route names: its `id` parameter as a number, or 0 where it is none.
pub fn user_route_id(param: &str) -> (r: i64)
    ensures
        r == match crate::text::spec_parse_i64(param@) {
            Some(v) => v,
            None => 0,
        },
{
    match crate::text::parse_i64(param) {
        Some(v) => v,
        None => 0,
    }
}

} // verus!
