//! The page components, rendered as HTML markup: each takes the markup of its children
//! and the values it shows, and gives its own markup.
#![allow(non_snake_case)]
use crate::auth::User;
use crate::markup::{escaped_attr, escaped_text, push_attr, push_text};
use crate::time::Timestamp;
use crate::types::{Activity, ApiError, Proof, Title};
use vstd::prelude::*;
use vstd::string::StrSliceExecFns;

verus! {

/// The summary line of a collapsible block.
pub open spec fn summary_markup(id: Seq<char>, header: Seq<char>) -> Seq<char> {
    "<details><summary class=\"row narrow\" aria-details=\""@ + escaped_attr(id)
        + "\"><span role=\"term\" class=\"icon\"></span>"@ + header + "</summary></details>"@
}

/// The body of a collapsible block.
pub open spec fn definition_markup(id: Seq<char>, children: Seq<char>) -> Seq<char> {
    "<div role=\"definition\" id=\""@ + escaped_attr(id) + "\" class=\"content\"><div><div class=\"inner\">"@
        + children + "</div></div></div>"@
}

/// A collapsible block: the summary above the body, or below it where `swapped`.
pub open spec fn collapsible_markup(id: Seq<char>, header: Seq<char>, swapped: bool, children: Seq<char>) -> Seq<char> {
    if !swapped {
        summary_markup(id, header) + definition_markup(id, children)
    } else {
        definition_markup(id, children) + summary_markup(id, header)
    }
}

/// A block that opens and closes under a summary line.
pub fn Collapsible(id: &str, header: &str, swapped: bool, children: &str) -> (r: String)
    ensures
        r@ == collapsible_markup(id@, header@, swapped, children@),
{
    let mut summary = String::from_str("<details><summary class=\"row narrow\" aria-details=\"");
    push_attr(&mut summary, id);
    summary.append("\"><span role=\"term\" class=\"icon\"></span>");
    summary.append(header);
    summary.append("</summary></details>");
    let mut definition = String::from_str("<div role=\"definition\" id=\"");
    push_attr(&mut definition, id);
    definition.append("\" class=\"content\"><div><div class=\"inner\">");
    definition.append(children);
    definition.append("</div></div></div>");
    if !swapped {
        summary.concat(definition.as_str())
    } else {
        definition.concat(summary.as_str())
    }
}

/// The class of the `i`-th of `len` groups of a navigation bar: the last group (of more
/// than one) is on the right, the groups between the first and the last in the middle.
pub open spec fn nav_class(i: int, len: int) -> Seq<char> {
    if i != 0 && i != len - 1 {
        " class=\"middle\""@
    } else if i == len - 1 && len != 1 {
        " class=\"right\""@
    } else {
        Seq::empty()
    }
}

/// The first `n` groups of a navigation bar.
pub open spec fn nav_groups(children: Seq<String>, n: int) -> Seq<char>
    decreases n,
{
    if n <= 0 {
        Seq::empty()
    } else {
        nav_groups(children, n - 1) + "<ul"@ + nav_class(n - 1, children.len() as int) + ">"@
            + children[n - 1]@ + "</ul>"@
    }
}

/// The page header: a navigation bar with one group per child.
pub open spec fn header_markup(children: Seq<String>) -> Seq<char> {
    "<header><nav class=\"row nav\">"@ + nav_groups(children, children.len() as int) + "</nav></header>"@
}

/// The page header, with a navigation group for each child.
pub fn Header(children: &Vec<String>) -> (r: String)
    ensures
        r@ == header_markup(children@),
{
    let len = children.len();
    let mut buf = String::from_str("<header><nav class=\"row nav\">");
    let ghost start = buf@;
    for i in 0..len
        invariant
            len == children@.len(),
            buf@ == start + nav_groups(children@, i as int),
    {
        buf.append("<ul");
        if i != 0 && i != len - 1 {
            buf.append(" class=\"middle\"");
        } else if i == len - 1 && len != 1 {
            buf.append(" class=\"right\"");
        }
        buf.append(">");
        buf.append(children[i].as_str());
        buf.append("</ul>");
        proof {
            assert(buf@ =~= start + nav_groups(children@, i + 1));
        }
    }
    buf.append("</nav></header>");
    buf
}

/// The first `n` children, each as an item of a list.
pub open spec fn list_items(children: Seq<String>, n: int) -> Seq<char>
    decreases n,
{
    if n <= 0 {
        Seq::empty()
    } else {
        list_items(children, n - 1) + "<li>"@ + children[n - 1]@ + "</li>"@
    }
}

/// Each child as an item of a list.
pub fn ListElements(children: &Vec<String>) -> (r: String)
    ensures
        r@ == list_items(children@, children@.len() as int),
{
    let mut buf = String::new();
    for i in 0..children.len()
        invariant
            buf@ == list_items(children@, i as int),
    {
        buf.append("<li>");
        buf.append(children[i].as_str());
        buf.append("</li>");
        proof {
            assert(buf@ =~= list_items(children@, i + 1));
        }
    }
    buf
}

/// The first `n` column headings of a table.
pub open spec fn table_headings(headers: Seq<String>, n: int) -> Seq<char>
    decreases n,
{
    if n <= 0 {
        Seq::empty()
    } else {
        table_headings(headers, n - 1) + "<span class=\"heading\">"@ + escaped_text(headers[n - 1]@) + "</span>"@
    }
}

/// The first `n` rows of a table, each followed by a divider.
pub open spec fn table_rows(rows: Seq<String>, n: int) -> Seq<char>
    decreases n,
{
    if n <= 0 {
        Seq::empty()
    } else {
        table_rows(rows, n - 1) + rows[n - 1]@ + "<div class=\"divider\"></div>"@
    }
}

/// A table: its headings, a divider, then each row followed by a divider.
pub open spec fn table_markup(headers: Seq<String>, rows: Seq<String>) -> Seq<char> {
    "<div class=\"grid\">"@ + table_headings(headers, headers.len() as int) + "<div class=\"divider header\"></div>"@
        + table_rows(rows, rows.len() as int) + "</div>"@
}

/// A table with the given headings and rows.
pub fn Table(headers: &Vec<String>, rows: &Vec<String>) -> (r: String)
    ensures
        r@ == table_markup(headers@, rows@),
{
    let mut buf = String::from_str("<div class=\"grid\">");
    let ghost start = buf@;
    for i in 0..headers.len()
        invariant
            buf@ == start + table_headings(headers@, i as int),
    {
        buf.append("<span class=\"heading\">");
        push_text(&mut buf, headers[i].as_str());
        buf.append("</span>");
        proof {
            assert(buf@ =~= start + table_headings(headers@, i + 1));
        }
    }
    buf.append("<div class=\"divider header\"></div>");
    let ghost middle = buf@;
    for i in 0..rows.len()
        invariant
            buf@ == middle + table_rows(rows@, i as int),
    {
        buf.append(rows[i].as_str());
        buf.append("<div class=\"divider\"></div>");
        proof {
            assert(buf@ =~= middle + table_rows(rows@, i + 1));
        }
    }
    buf.append("</div>");
    buf
}

/// The first `n` cells of a table row.
pub open spec fn line_cells(cells: Seq<String>, n: int) -> Seq<char>
    decreases n,
{
    if n <= 0 {
        Seq::empty()
    } else {
        line_cells(cells, n - 1) + "<span>"@ + cells[n - 1]@ + "</span>"@
    }
}

/// One row of a table: each child in a cell.
pub fn TableLine(cells: &Vec<String>) -> (r: String)
    ensures
        r@ == line_cells(cells@, cells@.len() as int),
{
    let mut buf = String::new();
    for i in 0..cells.len()
        invariant
            buf@ == line_cells(cells@, i as int),
    {
        buf.append("<span>");
        buf.append(cells[i].as_str());
        buf.append("</span>");
        proof {
            assert(buf@ =~= line_cells(cells@, i + 1));
        }
    }
    buf
}

/// One entry of a ranking legend: the `i`-th title, with a tooltip that says what it
/// asks for.
pub open spec fn legend_entry(i: int, t: Title, s: Seq<char>) -> Seq<char> {
    let n = crate::text::int_text(i);
    "<div class=\"tooltip-box\"><span class=\""@ + t.spec_name() + " bg title\" aria-describedby=\"tooltip-"@ + n
        + "\">"@ + t.spec_name() + "</span><span role=\"tooltip\" id=\"tooltip-"@ + n + "\" class=\"tooltip\">"@
        + escaped_text(s) + "</span></div>"@
}

/// The first `n` entries of a ranking legend.
pub open spec fn legend_entries(titles: Seq<(Title, String)>, n: int) -> Seq<char>
    decreases n,
{
    if n <= 0 {
        Seq::empty()
    } else {
        legend_entries(titles, n - 1) + legend_entry(n - 1, titles[n - 1].0, titles[n - 1].1@)
    }
}

/// Builds one entry of a ranking legend.
fn legend_item(i: usize, t: &Title, s: &str) -> (r: String)
    requires
        i <= i64::MAX,
    ensures
        r@ == legend_entry(i as int, *t, s@),
{
    let name = t.name();
    let index = crate::text::i64_text(i as i64);
    let mut buf = String::from_str("<div class=\"tooltip-box\"><span class=\"");
    buf.append(name.as_str());
    buf.append(" bg title\" aria-describedby=\"tooltip-");
    buf.append(index.as_str());
    buf.append("\">");
    buf.append(name.as_str());
    buf.append("</span><span role=\"tooltip\" id=\"tooltip-");
    buf.append(index.as_str());
    buf.append("\" class=\"tooltip\">");
    push_text(&mut buf, s);
    buf.append("</span></div>");
    buf
}

/// The legend of a ranking.
pub open spec fn legend_markup(titles: Seq<(Title, String)>) -> Seq<char> {
    "<div class=\"legend row narrow\">"@ + legend_entries(titles, titles.len() as int) + "</div>"@
}

/// The legend of a ranking: each title, and what it asks for.
pub fn RankingLegend(titles: &Vec<(Title, String)>) -> (r: String)
    requires
        titles@.len() <= i64::MAX,
    ensures
        r@ == legend_markup(titles@),
{
    let mut buf = String::from_str("<div class=\"legend row narrow\">");
    let ghost start = buf@;
    for i in 0..titles.len()
        invariant
            titles@.len() <= i64::MAX,
            buf@ == start + legend_entries(titles@, i as int),
    {
        let (t, s) = &titles[i];
        let item = legend_item(i, t, s.as_str());
        buf.append(item.as_str());
        proof {
            assert(buf@ =~= start + legend_entries(titles@, i + 1));
        }
    }
    buf.append("</div>");
    buf
}

/// The video of a run, playing.
pub open spec fn video_frame(yt_id: Seq<char>) -> Seq<char> {
    "<iframe src=\""@ + escaped_attr(
        "https://www.youtube-nocookie.com/embed/"@ + yt_id + "?autoplay=1&rel=0&modestbranding=1&showinfo=0"@,
    ) + "\" allowfullscreen></iframe>"@
}

/// The buttons over a run's cover: play where the proof is a YouTube video, else a link
/// to the proof; and a link that opens the proof in a new tab.
pub open spec fn proof_buttons(p: Proof) -> Seq<char> {
    "<div class=\"buttons\">"@ + (if p.yt_id is Some {
        "<button class=\"play-wrapper\"><div></div></button>"@
    } else {
        "<a href=\""@ + escaped_attr(p.url@) + "\" class=\"play-wrapper\" target=\"_blank\"><div></div></a>"@
    }) + "<br/><a class=\"external\" href=\""@ + escaped_attr(p.url@)
        + "\" target=\"_blank\">Open in new Tab</a></div>"@
}

/// The cover picture of a map.
pub open spec fn cover_markup(cover: Seq<char>) -> Seq<char> {
    "<div class=\"no-vid\"><img src=\""@ + escaped_attr("/cdn/maps/"@ + cover + ".jpg"@) + "\" alt=\""@
        + escaped_attr("Picture of "@ + cover) + "\"/></div>"@
}

/// The video player: the video where it plays, else the buttons (where there is a proof)
/// over the map's cover.
pub open spec fn player_markup(run_proof: Option<Proof>, cover: Seq<char>, playing: bool) -> Seq<char> {
    "<div class=\"video\">"@ + (if playing {
        video_frame(run_proof.unwrap().yt_id.unwrap()@)
    } else {
        (match run_proof {
            Some(p) => proof_buttons(p),
            None => Seq::empty(),
        }) + cover_markup(cover)
    }) + "</div>"@
}

/// The video player of the selected run. It plays only after its play button, which it
/// shows only for a YouTube proof, was pressed.
pub fn Player(run_proof: &Option<Proof>, cover: &str, playing: bool) -> (r: String)
    requires
        playing ==> (*run_proof matches Some(p) && p.yt_id is Some),
    ensures
        r@ == player_markup(*run_proof, cover@, playing),
{
    let mut buf = String::from_str("<div class=\"video\">");
    if playing {
        let yt = match run_proof {
            Some(p) => match &p.yt_id {
                Some(y) => y.clone(),
                None => String::new(),
            },
            None => String::new(),
        };
        let src = String::from_str("https://www.youtube-nocookie.com/embed/").concat(yt.as_str()).concat(
            "?autoplay=1&rel=0&modestbranding=1&showinfo=0",
        );
        buf.append("<iframe src=\"");
        push_attr(&mut buf, src.as_str());
        buf.append("\" allowfullscreen></iframe>");
    } else {
        if let Some(p) = run_proof {
            buf.append("<div class=\"buttons\">");
            if p.yt_id.is_some() {
                buf.append("<button class=\"play-wrapper\"><div></div></button>");
            } else {
                buf.append("<a href=\"");
                push_attr(&mut buf, p.url.as_str());
                buf.append("\" class=\"play-wrapper\" target=\"_blank\"><div></div></a>");
            }
            buf.append("<br/><a class=\"external\" href=\"");
            push_attr(&mut buf, p.url.as_str());
            buf.append("\" target=\"_blank\">Open in new Tab</a></div>");
        }
        let picture = String::from_str("/cdn/maps/").concat(cover).concat(".jpg");
        let alt = String::from_str("Picture of ").concat(cover);
        buf.append("<div class=\"no-vid\"><img src=\"");
        push_attr(&mut buf, picture.as_str());
        buf.append("\" alt=\"");
        push_attr(&mut buf, alt.as_str());
        buf.append("\"/></div>");
    }
    buf.append("</div>");
    buf
}

/// The section management page, still to come.
pub fn ManageSections() -> (r: String)
    ensures
        r@ == "<h1>Placeholder</h1>"@,
{
    String::from_str("<h1>Placeholder</h1>")
}

/// The user management page, still to come.
pub fn ManageUsers() -> (r: String)
    ensures
        r@ == "<h1>Placeholder</h1>"@,
{
    String::from_str("<h1>Placeholder</h1>")
}

/// The ranking page of a player, still to come.
pub open spec fn user_ranking_markup() -> Seq<char> {
    "<section id=\"ranking\"><h1>Coming</h1><img src=\"/soon.jpg\" alt=\"soon tm\"/></section>"@
}

/// The ranking page of a player (with the patches to choose from), still to come.
pub fn UserRanking(id: i64, patches: &Vec<(String, String)>) -> (r: String)
    ensures
        r@ == user_ranking_markup(),
{
    String::from_str("<section id=\"ranking\"><h1>Coming</h1><img src=\"/soon.jpg\" alt=\"soon tm\"/></section>")
}

/// What a profile says about a player who wrote nothing about themselves.
pub open spec fn no_bio() -> Seq<char> {
    "This user has no about me."@
}

/// The profile of a player: their name, picture and about text.
pub open spec fn profile_body(u: User) -> Seq<char> {
    let bio = match u.bio {
        Some(b) => b@,
        None => no_bio(),
    };
    "<h1>"@ + escaped_text(u.username@) + "</h1><div class=\"row\"><div><img class=\"avatar\" src=\""@
        + escaped_attr("/cdn/users/"@ + u.pfp@ + ".jpg"@) + "\"/><p>"@ + escaped_text(bio)
        + "</p></div><div class=\"medals\"></div></div><div class=\"rankings\"></div>"@
}

/// The profile page: a note while the player is being fetched, nothing where fetching
/// failed, else the profile.
pub open spec fn profile_markup(user: Option<Result<User, ApiError>>) -> Seq<char> {
    "<section id=\"profile\">"@ + (match user {
        None => "Fetching User"@,
        Some(Err(_)) => Seq::empty(),
        Some(Ok(u)) => profile_body(u),
    }) + "</section>"@
}

/// The profile page of a player, from what fetching the player gave so far.
pub fn Profile(user: &Option<Result<User, ApiError>>) -> (r: String)
    ensures
        r@ == profile_markup(*user),
{
    let mut buf = String::from_str("<section id=\"profile\">");
    match user {
        None => {
            buf.append("Fetching User");
        },
        Some(Err(_)) => {},
        Some(Ok(u)) => {
            buf.append("<h1>");
            push_text(&mut buf, u.username.as_str());
            buf.append("</h1><div class=\"row\"><div><img class=\"avatar\" src=\"");
            let picture = String::from_str("/cdn/users/").concat(u.pfp.as_str()).concat(".jpg");
            push_attr(&mut buf, picture.as_str());
            buf.append("\"/><p>");
            match &u.bio {
                Some(b) => push_text(&mut buf, b.as_str()),
                None => push_text(&mut buf, "This user has no about me."),
            }
            buf.append("</p></div><div class=\"medals\"></div></div><div class=\"rankings\"></div>");
        },
    }
    buf.append("</section>");
    buf
}

/// The profile address of a player.
pub open spec fn profile_href(id: i64) -> Seq<char> {
    "/user/"@ + crate::text::int_text(id as int) + "/leaderboard"@
}

/// The right-hand items of the site navigation: a login link for a visitor; for a
/// signed-in player their picture, linking to their profile, and a menu of five entries
/// (profile, submit, dashboard, run management, log out).
pub open spec fn nav_links_markup(user: Option<User>) -> Seq<char> {
    match user {
        None => "<li><a href=\"/login\">Login</a></li>"@,
        Some(u) => "<li><a href=\""@ + escaped_attr(profile_href(u.id)) + "\"><img src=\""@
            + escaped_attr("/cdn/users/"@ + u.pfp@ + ".jpg"@)
            + "\"/></a></li><li class=\"dropdown\"><button type=\"button\" class=\"dropdown-title\" aria-controls=\"user-dropdown\">&#9660;</button><ul class=\"dropdown-menu\" id=\"user-dropdown\"><li><a href=\""@
            + escaped_attr(profile_href(u.id))
            + "\">Profile</a></li><li><a href=\"/user/@me/submit\">Submit</a></li><li><a href=\"/user/@me/dashboard\">Dashboard</a></li><li><a href=\"/user/@me/manage\">Manage Runs</a></li><li><button type=\"button\" class=\"dropdown-title\">Log Out</button></li></ul></li>"@,
    }
}

/// The right-hand items of the site navigation, for the signed-in player if there is one.
pub fn nav_links(user: &Option<User>) -> (r: String)
    ensures
        r@ == nav_links_markup(*user),
{
    match user {
        None => String::from_str("<li><a href=\"/login\">Login</a></li>"),
        Some(u) => {
            let profile = String::from_str("/user/").concat(crate::text::i64_text(u.id).as_str()).concat(
                "/leaderboard",
            );
            let picture = String::from_str("/cdn/users/").concat(u.pfp.as_str()).concat(".jpg");
            let mut buf = String::from_str("<li><a href=\"");
            push_attr(&mut buf, profile.as_str());
            buf.append("\"><img src=\"");
            push_attr(&mut buf, picture.as_str());
            buf.append(
                "\"/></a></li><li class=\"dropdown\"><button type=\"button\" class=\"dropdown-title\" aria-controls=\"user-dropdown\">&#9660;</button><ul class=\"dropdown-menu\" id=\"user-dropdown\"><li><a href=\"",
            );
            push_attr(&mut buf, profile.as_str());
            buf.append(
                "\">Profile</a></li><li><a href=\"/user/@me/submit\">Submit</a></li><li><a href=\"/user/@me/dashboard\">Dashboard</a></li><li><a href=\"/user/@me/manage\">Manage Runs</a></li><li><button type=\"button\" class=\"dropdown-title\">Log Out</button></li></ul></li>",
            );
            buf
        },
    }
}

/// The upper-case form of a character, as Unicode maps it (one or more characters).
pub uninterp spec fn upper_case(c: char) -> Seq<char>;

/// The upper-case form of a character (`char::to_uppercase`, collected). An ASCII
/// lower-case letter becomes the matching capital.
#[verifier::external_body]
fn char_upper(c: char) -> (r: String)
    ensures
        r@ == upper_case(c),
        'a' <= c <= 'z' ==> r@ == seq![((c as u32) - 32) as char],
{
    c.to_uppercase().to_string()
}

/// The category as the runs query names it: its first character in upper case.
pub open spec fn query_category(category: Seq<char>) -> Seq<char> {
    upper_case(category[0]) + category.drop_first()
}

/// The category as the runs query names it, from the one in the page's path.
pub fn leaderboard_category(category: &str) -> (r: String)
    requires
        category@.len() > 0,
    ensures
        r@ == query_category(category@),
        'a' <= category@[0] <= 'z' ==> r@ == seq![((category@[0] as u32) - 32) as char] + category@.drop_first(),
{
    let n = category.unicode_len();
    let first = category.get_char(0);
    let rest = category.substring_char(1, n);
    proof {
        assert(rest@ =~= category@.drop_first());
    }
    char_upper(first).concat(rest)
}

/// The first `n` entries of a leaderboard.
pub open spec fn entries_markup(entries: Seq<String>, n: int) -> Seq<char>
    decreases n,
{
    if n <= 0 {
        Seq::empty()
    } else {
        entries_markup(entries, n - 1) + entries[n - 1]@
    }
}

/// The leaderboard of a layout and category: a note while loading, the error where
/// fetching failed, else the entry of each map.
pub open spec fn leaderboard_markup(maps: Option<Result<Vec<String>, ApiError>>) -> Seq<char> {
    match maps {
        None => "<p>Loading...</p>"@,
        Some(Err(e)) => "<p>"@ + escaped_text(e.spec_message()) + "</p>"@,
        Some(Ok(entries)) => "<div id=\"lb\">"@ + entries_markup(entries@, entries@.len() as int) + "</div>"@,
    }
}

/// The leaderboard of a layout and category, from the markup of its entries.
pub fn Leaderboard(maps: &Option<Result<Vec<String>, ApiError>>) -> (r: String)
    ensures
        r@ == leaderboard_markup(*maps),
{
    match maps {
        None => String::from_str("<p>Loading...</p>"),
        Some(Err(e)) => {
            let mut buf = String::from_str("<p>");
            push_text(&mut buf, e.message().as_str());
            buf.append("</p>");
            buf
        },
        Some(Ok(entries)) => {
            let mut buf = String::from_str("<div id=\"lb\">");
            let ghost start = buf@;
            for i in 0..entries.len()
                invariant
                    buf@ == start + entries_markup(entries@, i as int),
            {
                buf.append(entries[i].as_str());
                proof {
                    assert(buf@ =~= start + entries_markup(entries@, i + 1));
                }
            }
            buf.append("</div>");
            buf
        },
    }
}

/// The text of an optional value with a prefix, or `-` where there is none.
pub open spec fn or_dash(prefix: Seq<char>, v: Option<String>) -> Seq<char> {
    match v {
        Some(t) => prefix + t@,
        None => "-"@,
    }
}

/// The name of an optional title, or the empty text.
pub open spec fn title_class(t: Option<Title>) -> Seq<char> {
    match t {
        Some(t) => t.spec_name(),
        None => Seq::empty(),
    }
}

/// The name of an optional title, or `-`.
pub open spec fn title_shown(t: Option<Title>) -> Seq<char> {
    match t {
        Some(t) => t.spec_name(),
        None => "-"@,
    }
}

/// An optional rank as shown: `#` and the rank, or `-`.
pub open spec fn rank_shown(r: Option<i32>) -> Seq<char> {
    match r {
        Some(v) => "#"@ + crate::text::int_text(v as int),
        None => "-"@,
    }
}

/// The class of an optional rank: `rank-` and the rank (nothing where there is none).
pub open spec fn rank_class(r: Option<i32>) -> Seq<char> {
    "rank-"@ + match r {
        Some(v) => crate::text::int_text(v as int),
        None => Seq::empty(),
    }
}

/// The cell of an optional title: named after the title, which it shows (or `-`).
pub open spec fn title_cell(t: Option<Title>) -> Seq<char> {
    "<span class=\""@ + title_class(t) + " color\">"@ + title_shown(t) + "</span>"@
}

/// The cell of an optional rank: classed by the rank, which it shows (or `-`).
pub open spec fn rank_cell(r: Option<i32>) -> Seq<char> {
    "<span class=\""@ + rank_class(r) + " color\">"@ + rank_shown(r) + "</span>"@
}

/// One row of the activity table: the date (as the reader's clock shows it), the player,
/// the ranking, the titles and the ranks before and after, then a divider.
pub open spec fn activity_row_markup(a: Activity, date: Seq<char>) -> Seq<char> {
    "<span>"@ + escaped_text(date) + "</span><span>"@ + escaped_text(a.user.username@) + "</span><span>"@
        + escaped_text(or_dash("Patch "@, a.patch)) + "</span><span>"@ + escaped_text(or_dash("Layout "@, a.layout))
        + "</span><span>"@ + escaped_text(or_dash(Seq::empty(), a.category)) + "</span>"@ + title_cell(a.title_old)
        + title_cell(a.title_new) + rank_cell(a.rank_old) + rank_cell(a.rank_new) + "<div class=\"divider\"></div>"@
}

/// Appends an optional value with a prefix, or `-`, as text.
fn push_or_dash(buf: &mut String, prefix: &str, v: &Option<String>)
    ensures
        final(buf)@ == old(buf)@ + escaped_text(or_dash(prefix@, *v)),
{
    match v {
        Some(t) => {
            let s = String::from_str(prefix).concat(t.as_str());
            push_text(buf, s.as_str());
        },
        None => push_text(buf, "-"),
    }
}

/// Appends the cell of an optional title.
fn push_title(buf: &mut String, t: &Option<Title>)
    ensures
        final(buf)@ == old(buf)@ + title_cell(*t),
{
    buf.append("<span class=\"");
    match t {
        Some(t) => {
            let name = t.name();
            buf.append(name.as_str());
            buf.append(" color\">");
            buf.append(name.as_str());
        },
        None => {
            buf.append(" color\">-");
            proof {
                reveal_strlit(" color\">-");
                reveal_strlit(" color\">");
                reveal_strlit("-");
                assert(" color\">-"@ =~= " color\">"@ + "-"@);
            }
        },
    }
    buf.append("</span>");
}

/// Appends the cell of an optional rank.
fn push_rank(buf: &mut String, r: &Option<i32>)
    ensures
        final(buf)@ == old(buf)@ + rank_cell(*r),
{
    buf.append("<span class=\"rank-");
    match r {
        Some(v) => {
            let n = crate::text::i64_text(*v as i64);
            buf.append(n.as_str());
            buf.append(" color\">#");
            buf.append(n.as_str());
        },
        None => {
            buf.append(" color\">-");
        },
    }
    buf.append("</span>");
    proof {
        reveal_strlit("<span class=\"rank-");
        reveal_strlit("<span class=\"");
        reveal_strlit("rank-");
        reveal_strlit(" color\">#");
        reveal_strlit(" color\">-");
        reveal_strlit(" color\">");
        reveal_strlit("#");
        reveal_strlit("-");
    }
}

/// One row of the activity table.
pub fn activity_row(a: &Activity, date: &str) -> (r: String)
    ensures
        r@ == activity_row_markup(*a, date@),
{
    let mut buf = String::from_str("<span>");
    push_text(&mut buf, date);
    buf.append("</span><span>");
    push_text(&mut buf, a.user.username.as_str());
    buf.append("</span><span>");
    push_or_dash(&mut buf, "Patch ", &a.patch);
    buf.append("</span><span>");
    push_or_dash(&mut buf, "Layout ", &a.layout);
    buf.append("</span><span>");
    proof {
        reveal_strlit("");
        assert(""@ =~= Seq::<char>::empty());
    }
    push_or_dash(&mut buf, "", &a.category);
    buf.append("</span>");
    let ghost cells = buf@;
    push_title(&mut buf, &a.title_old);
    push_title(&mut buf, &a.title_new);
    push_rank(&mut buf, &a.rank_old);
    push_rank(&mut buf, &a.rank_new);
    buf.append("<div class=\"divider\"></div>");
    proof {
        assert(buf@ =~= cells + title_cell(a.title_old) + title_cell(a.title_new) + rank_cell(a.rank_old)
            + rank_cell(a.rank_new) + "<div class=\"divider\"></div>"@);
    }
    buf
}

/// The page bar of a paged list: where the previous and the next page are, and the
/// number shown for the current one.
#[derive(Clone, Copy, Debug, PartialEq, Eq)]
pub struct PageBar {
    pub shown: i64,
    pub previous: Option<i32>,
    pub next: Option<i32>,
}

/// The page bar on page `offset` (counted from 0): a previous page unless on the first,
/// a next page unless this is the last, and the page number counted from 1.
pub fn page_bar(offset: i32, last: bool) -> (r: PageBar)
    requires
        offset != i32::MIN,
        !last ==> offset != i32::MAX,
    ensures
        r.shown == offset + 1,
        r.previous == (if offset != 0 { Some((offset - 1) as i32) } else { None::<i32> }),
        r.next == (if !last { Some((offset + 1) as i32) } else { None::<i32> }),
{
    PageBar {
        shown: offset as i64 + 1,
        previous: if offset != 0 {
            Some(offset - 1)
        } else {
            None
        },
        next: if !last {
            Some(offset + 1)
        } else {
            None
        },
    }
}

/// What a page parameter holds: the parameter, or `0` where it is missing.
pub open spec fn page_text(param: Option<String>) -> Seq<char> {
    match param {
        Some(p) => p@,
        None => "0"@,
    }
}

/// The page (counted from 0) that a `page` parameter names.
pub fn page_offset(param: &Option<String>) -> (r: i32)
    requires
        crate::text::spec_parse_i32(page_text(*param)) is Some,
    ensures
        r == crate::text::spec_parse_i32(page_text(*param)).unwrap(),
{
    let parsed = match param {
        Some(p) => crate::text::parse_i32(p.as_str()),
        None => crate::text::parse_i32("0"),
    };
    match parsed {
        Some(v) => v,
        None => 0,
    }
}

/// The number of entries on a page of a list.
pub const PAGE_SIZE: i32 = 50;

/// The position of the first entry of page `offset`.
pub fn page_start(offset: i32) -> (r: i32)
    requires
        i32::MIN <= offset * 50 <= i32::MAX,
    ensures
        r == offset * 50,
{
    offset * PAGE_SIZE
}

/// A page is the last one where it holds fewer entries than a full page.
pub fn is_last_page(count: usize) -> (r: bool)
    ensures
        r == (count < 50),
{
    count < 50
}

/// The label of the `index`-th entry (from 0) of a sorted run list: its place, `#` and
/// the index plus one, where the list is sorted by time (or by default); `None` where it is
/// sorted otherwise and the run's date stands there instead.
pub fn rank_label(sort_key: &Option<String>, index: usize) -> (r: Option<String>)
    requires
        index < i64::MAX,
    ensures
        r is Some <==> (*sort_key matches Some(k) ==> k@ == "time"@),
        r matches Some(s) ==> s@ == "#"@ + crate::text::int_text(index + 1),
{
    let by_place = match sort_key {
        Some(k) => crate::text::str_eq(k.as_str(), "time"),
        None => true,
    };
    if by_place {
        Some(String::from_str("#").concat(crate::text::i64_text(index as i64 + 1).as_str()))
    } else {
        None
    }
}

/// The standing of a run: a world record, else a personal best, else verified or not.
pub open spec fn spec_run_status(is_wr: bool, is_pb: bool, verified: bool) -> Seq<char> {
    if is_wr {
        "World Record"@
    } else if is_pb {
        "Personal Best"@
    } else if verified {
        "Verified"@
    } else {
        "Unverified"@
    }
}

/// The standing of a run, as its details show it.
pub fn run_status(run: &crate::types::PartialRun) -> (r: String)
    ensures
        r@ == spec_run_status(run.is_wr, run.is_pb, run.verified),
{
    if run.is_wr {
        String::from_str("World Record")
    } else if run.is_pb {
        String::from_str("Personal Best")
    } else if run.verified {
        String::from_str("Verified")
    } else {
        String::from_str("Unverified")
    }
}

/// How long ago something happened, from the whole seconds `s` since: minutes and
/// seconds within the first hour, hours and minutes within the first day, else days and
/// hours (each count rounded toward zero, as chrono counts).
pub open spec fn spec_time_ago(s: int) -> Seq<char> {
    let m = crate::notify::tdiv(s, 60);
    let h = crate::notify::tdiv(s, 3600);
    let d = crate::notify::tdiv(s, 86400);
    (if h == 0 {
        crate::text::int_text(m) + "m "@ + crate::text::int_text(s - m * 60) + "s"@
    } else if d == 0 {
        crate::text::int_text(h) + "h "@ + crate::text::int_text(m - h * 60) + "m"@
    } else {
        crate::text::int_text(d) + "d "@ + crate::text::int_text(h - d * 24) + "h"@
    }) + " ago"@
}

/// How long before `now` the instant `then` was.
pub fn time_ago(now: &Timestamp, then: &Timestamp) -> (r: String)
    requires
        now.wf(),
        then.wf(),
    ensures
        r@ == spec_time_ago(crate::notify::elapsed_secs(*now, *then)),
{
    let nanos: i128 = (now.secs as i128 - then.secs as i128) * 1_000_000_000 + (now.nanos as i128
        - then.nanos as i128);
    let s: i128 = nanos / 1_000_000_000;
    let m: i128 = s / 60;
    let h: i128 = s / 3600;
    let d: i128 = s / 86400;
    let (first, first_unit, second, second_unit) = if h == 0 {
        (m, "m ", s - m * 60, "s")
    } else if d == 0 {
        (h, "h ", m - h * 60, "m")
    } else {
        (d, "d ", h - d * 24, "h")
    };
    let mut out = crate::text::wide_text(first);
    out.append(first_unit);
    out.append(crate::text::wide_text(second).as_str());
    out.append(second_unit);
    out.append(" ago");
    out
}

/// Within the first hour, the seconds shown are below a minute; within the first day, the
/// minutes shown are below an hour; after that, the hours shown are below a day.
pub proof fn lemma_time_ago_parts(s: int)
    requires
        s >= 0,
    ensures
        crate::notify::tdiv(s, 3600) == 0 ==> 0 <= s - crate::notify::tdiv(s, 60) * 60 < 60,
        crate::notify::tdiv(s, 86400) == 0 ==> 0 <= crate::notify::tdiv(s, 60) - crate::notify::tdiv(s, 3600) * 60 < 60,
        0 <= crate::notify::tdiv(s, 3600) - crate::notify::tdiv(s, 86400) * 24 < 24,
{
    vstd::arithmetic::div_mod::lemma_div_denominator(s, 60, 60);
    vstd::arithmetic::div_mod::lemma_div_denominator(s, 3600, 24);
    vstd::arithmetic::div_mod::lemma_fundamental_div_mod(s, 60);
    vstd::arithmetic::div_mod::lemma_fundamental_div_mod(s / 60, 60);
    vstd::arithmetic::div_mod::lemma_fundamental_div_mod(s / 3600, 24);
    vstd::arithmetic::div_mod::lemma_mod_bound(s, 60);
    vstd::arithmetic::div_mod::lemma_mod_bound(s / 60, 60);
    vstd::arithmetic::div_mod::lemma_mod_bound(s / 3600, 24);
    vstd::arithmetic::div_mod::lemma_div_pos_is_pos(s, 60);
    vstd::arithmetic::div_mod::lemma_div_pos_is_pos(s, 3600);
}

/// A title or rank in the activity summary: a title where there is one, else a rank.
pub open spec fn change_part(title: Option<Title>, rank: Option<i32>) -> Option<Seq<char>> {
    match title {
        Some(t) => Some("<h5 class=\""@ + t.spec_name() + " color\">"@ + t.spec_name() + "</h5>"@),
        None => match rank {
            Some(r) => Some(
                "<h5 class=\"rank-"@ + crate::text::int_text(r as int) + " color\">#"@ + crate::text::int_text(r as int)
                    + "</h5>"@,
            ),
            None => None,
        },
    }
}

/// The change an activity entry reports on the home page: what the player had, `to`,
/// and what they have now; a player who joined had nothing before.
pub open spec fn change_markup(a: Activity) -> Seq<char> {
    let before = match change_part(a.title_old, a.rank_old) {
        Some(p) => p,
        None => "<h5>User Joined</h5>"@,
    };
    let after = match change_part(a.title_new, a.rank_new) {
        Some(p) => p,
        None => Seq::empty(),
    };
    let to = if a.title_old is Some || a.rank_old is Some {
        "to"@
    } else {
        Seq::empty()
    };
    "<div class=\"row\">"@ + before + "<h6>"@ + to + "</h6>"@ + after + "</div><h6>for "@ + escaped_text(a.user.username@)
        + "</h6>"@
}

/// Builds one side of an activity change.
fn change_side(title: &Option<Title>, rank: &Option<i32>) -> (r: Option<String>)
    ensures
        crate::text::opt_text(r) == change_part(*title, *rank),
{
    match title {
        Some(t) => {
            let name = t.name();
            let mut s = String::from_str("<h5 class=\"");
            s.append(name.as_str());
            s.append(" color\">");
            s.append(name.as_str());
            s.append("</h5>");
            Some(s)
        },
        None => match rank {
            Some(v) => {
                let n = crate::text::i64_text(*v as i64);
                let mut s = String::from_str("<h5 class=\"rank-");
                s.append(n.as_str());
                s.append(" color\">#");
                s.append(n.as_str());
                s.append("</h5>");
                Some(s)
            },
            None => None,
        },
    }
}

/// The change an activity entry reports on the home page.
pub fn activity_change(a: &Activity) -> (r: String)
    ensures
        r@ == change_markup(*a),
{
    let mut buf = String::from_str("<div class=\"row\">");
    match change_side(&a.title_old, &a.rank_old) {
        Some(p) => buf.append(p.as_str()),
        None => buf.append("<h5>User Joined</h5>"),
    }
    buf.append("<h6>");
    if a.title_old.is_some() || a.rank_old.is_some() {
        buf.append("to");
    }
    buf.append("</h6>");
    if let Some(p) = change_side(&a.title_new, &a.rank_new) {
        buf.append(p.as_str());
    }
    buf.append("</div><h6>for ");
    push_text(&mut buf, a.user.username.as_str());
    buf.append("</h6>");
    buf
}

/// The first `n` fields of a filter form, each in an input box.
pub open spec fn filter_fields(children: Seq<String>, n: int) -> Seq<char>
    decreases n,
{
    if n <= 0 {
        Seq::empty()
    } else {
        filter_fields(children, n - 1) + "<div class=\"input-box\">"@ + children[n - 1]@ + "</div>"@
    }
}

/// A filter form: its fields in a row, each in an input box, and an apply button; the
/// form sends its fields as query parameters of the page.
pub open spec fn filter_markup(children: Seq<String>) -> Seq<char> {
    "<form method=\"GET\" action=\"\"><div class=\"row\">"@ + filter_fields(children, children.len() as int)
        + "</div><input type=\"submit\" class=\"button\" value=\"Apply\"/></form>"@
}

/// A filter form with the given fields.
pub fn Filter(children: &Vec<String>) -> (r: String)
    ensures
        r@ == filter_markup(children@),
{
    let mut buf = String::from_str("<form method=\"GET\" action=\"\"><div class=\"row\">");
    let ghost start = buf@;
    for i in 0..children.len()
        invariant
            buf@ == start + filter_fields(children@, i as int),
    {
        buf.append("<div class=\"input-box\">");
        buf.append(children[i].as_str());
        buf.append("</div>");
        proof {
            assert(buf@ =~= start + filter_fields(children@, i + 1));
        }
    }
    buf.append("</div><input type=\"submit\" class=\"button\" value=\"Apply\"/></form>");
    buf
}

/// Whether the `i`-th option of a select is selected: the page's parameter names its
/// value, or the parameter is missing and it is the default option.
pub open spec fn option_selected(i: int, default: int, param: Option<Seq<char>>, value: Seq<char>) -> bool {
    (i == default && param is None) || param == Some(value)
}

/// One option of a select.
pub open spec fn option_markup(i: int, default: int, param: Option<Seq<char>>, value: Seq<char>, label: Seq<char>) -> Seq<char> {
    "<option value=\""@ + escaped_attr(value) + "\""@ + (if option_selected(i, default, param, value) {
        " selected=\"\""@
    } else {
        Seq::empty()
    }) + ">"@ + escaped_text(label) + "</option>"@
}

/// The first `n` options of a select.
pub open spec fn select_options(options: Seq<(String, String)>, n: int, default: int, param: Option<Seq<char>>) -> Seq<char>
    decreases n,
{
    if n <= 0 {
        Seq::empty()
    } else {
        select_options(options, n - 1, default, param) + option_markup(
            n - 1,
            default,
            param,
            options[n - 1].0@,
            options[n - 1].1@,
        )
    }
}

/// A labelled select of a filter form.
pub open spec fn select_markup(
    name: Seq<char>,
    indicator: Seq<char>,
    default: int,
    options: Seq<(String, String)>,
    param: Option<Seq<char>>,
) -> Seq<char> {
    "<label for=\""@ + escaped_attr(name) + "\" class=\"indicator\">"@ + escaped_text(indicator)
        + "</label><select class=\"select\" name=\""@ + escaped_attr(name) + "\" id=\""@ + escaped_attr(name)
        + "\" autocomplete=\"off\">"@ + select_options(options, options.len() as int, default, param) + "</select>"@
}

/// Builds one option of a select.
fn select_option(i: usize, default: usize, param: &Option<String>, value: &str, label: &str) -> (r: String)
    ensures
        r@ == option_markup(i as int, default as int, crate::text::opt_text(*param), value@, label@),
{
    let chosen = (i == default && param.is_none()) || match param {
        Some(p) => crate::text::str_eq(p.as_str(), value),
        None => false,
    };
    let mut buf = String::from_str("<option value=\"");
    push_attr(&mut buf, value);
    buf.append("\"");
    if chosen {
        buf.append(" selected=\"\"");
    }
    buf.append(">");
    push_text(&mut buf, label);
    buf.append("</option>");
    buf
}

/// A select of a filter form, with the option the page's parameter `param` names (or the
/// default one) selected.
pub fn Select(
    name: &str,
    indicator: &str,
    selected: usize,
    options: &crate::fragment::SelectFragment,
    param: &Option<String>,
) -> (r: String)
    ensures
        r@ == select_markup(name@, indicator@, selected as int, options.nodes@, crate::text::opt_text(*param)),
{
    let mut buf = String::from_str("<label for=\"");
    push_attr(&mut buf, name);
    buf.append("\" class=\"indicator\">");
    push_text(&mut buf, indicator);
    buf.append("</label><select class=\"select\" name=\"");
    push_attr(&mut buf, name);
    buf.append("\" id=\"");
    push_attr(&mut buf, name);
    buf.append("\" autocomplete=\"off\">");
    let ghost start = buf@;
    let nodes = &options.nodes;
    for i in 0..nodes.len()
        invariant
            nodes@ == options.nodes@,
            buf@ == start + select_options(nodes@, i as int, selected as int, crate::text::opt_text(*param)),
    {
        let (v, l) = &nodes[i];
        let item = select_option(i, selected, param, v.as_str(), l.as_str());
        buf.append(item.as_str());
        proof {
            assert(buf@ =~= start + select_options(nodes@, i + 1, selected as int, crate::text::opt_text(*param)));
        }
    }
    buf.append("</select>");
    buf
}

/// The headings of the run administration table.
pub open spec fn run_table_headings() -> Seq<Seq<char>> {
    seq!["date"@, "user"@, "patch"@, "layout"@, "category"@, "map"@, "proof"@, "time"@]
}

/// The headings of the run administration table.
pub fn run_table_headers() -> (r: Vec<String>)
    ensures
        r@.map_values(|s: String| s@) == run_table_headings(),
{
    let r = vec![
        String::from_str("date"),
        String::from_str("user"),
        String::from_str("patch"),
        String::from_str("layout"),
        String::from_str("category"),
        String::from_str("map"),
        String::from_str("proof"),
        String::from_str("time"),
    ];
    proof {
        assert(r@.map_values(|s: String| s@) =~= run_table_headings());
    }
    r
}

/// The cells of a run in the administration table: the date (as the reader's clock shows
/// it), the player, the patch, layout, category and map, a link to the proof, and the time.
pub open spec fn run_cells_view(run: crate::types::Run, date: Seq<char>) -> Seq<Seq<char>> {
    seq![
        escaped_text(date),
        escaped_text(run.user.username@),
        escaped_text("Patch "@ + run.section.patch@),
        escaped_text("Layout "@ + run.section.layout@),
        escaped_text(run.section.category@),
        escaped_text(run.section.map@),
        "<a href=\""@ + escaped_attr(run.proof@) + "\">link</a>"@,
        escaped_text(crate::time::decimal_text(run.time.mantissa, run.time.scale)),
    ]
}

/// The cells of a run in the administration table.
pub fn run_cells(run: &crate::types::Run, date: &str) -> (r: Vec<String>)
    requires
        run.time.wf(),
    ensures
        r@.map_values(|s: String| s@) == run_cells_view(*run, date@),
{
    let patch = String::from_str("Patch ").concat(run.section.patch.as_str());
    let layout = String::from_str("Layout ").concat(run.section.layout.as_str());
    let mut link = String::from_str("<a href=\"");
    push_attr(&mut link, run.proof.as_str());
    link.append("\">link</a>");
    let time = crate::time::time_to_string(&run.time);
    let r = vec![
        crate::markup::escape_text(date),
        crate::markup::escape_text(run.user.username.as_str()),
        crate::markup::escape_text(patch.as_str()),
        crate::markup::escape_text(layout.as_str()),
        crate::markup::escape_text(run.section.category.as_str()),
        crate::markup::escape_text(run.section.map.as_str()),
        link,
        crate::markup::escape_text(time.as_str()),
    ];
    proof {
        assert(r@.map_values(|s: String| s@) =~= run_cells_view(*run, date@));
    }
    r
}

/// Where a category tab of a leaderboard leads, keeping the page's query (`query`, empty
/// or starting with `?`).
pub fn category_link(category: &str, query: &str) -> (r: String)
    ensures
        r@ == "../"@ + category@ + query@,
{
    String::from_str("../").concat(category).concat(query)
}

/// Where a layout tab of a leaderboard leads: the layout, in the current category,
/// keeping the page's query.
pub fn layout_link(layout: &str, category: &str, query: &str) -> (r: String)
    ensures
        r@ == "../../"@ + layout@ + "/"@ + category@ + query@,
{
    String::from_str("../../").concat(layout).concat("/").concat(category).concat(query)
}

/// The place class of a ranking row: the podium places are marked.
pub open spec fn podium_class(rank: i32) -> Seq<char> {
    if rank == 1 {
        " rank-1"@
    } else if rank == 2 {
        " rank-2"@
    } else if rank == 3 {
        " rank-3"@
    } else {
        Seq::empty()
    }
}

/// One row of a ranking: the place (coloured by title, the podium marked), the player
/// with a link to their rankings, and the rating (already written out) in the title's colour.
pub open spec fn ranking_row_markup(rank: i32, title: Title, user_id: i64, username: Seq<char>, rating: Seq<char>) -> Seq<char> {
    "<div class=\"grid-row\"><div class=\"rank "@ + title.spec_name() + " bg"@ + podium_class(rank) + "\"><h5>"@
        + crate::text::int_text(rank as int) + "</h5></div><a href=\"/user/"@ + crate::text::int_text(user_id as int)
        + "/ranking\"><h4 class=\"name\">"@ + escaped_text(username) + "</h4></a><div class=\"rating row narrow\"><h4 class=\""@
        + title.spec_name() + " color\">"@ + escaped_text(rating) + "</h4><h6>RP</h6></div></div>"@
}

/// One row of a ranking.
pub fn ranking_row(rank: i32, title: &Title, user_id: i64, username: &str, rating: &str) -> (r: String)
    ensures
        r@ == ranking_row_markup(rank, *title, user_id, username@, rating@),
{
    let name = title.name();
    let mut buf = String::from_str("<div class=\"grid-row\"><div class=\"rank ");
    buf.append(name.as_str());
    buf.append(" bg");
    if rank == 1 {
        buf.append(" rank-1");
    } else if rank == 2 {
        buf.append(" rank-2");
    } else if rank == 3 {
        buf.append(" rank-3");
    }
    buf.append("\"><h5>");
    buf.append(crate::text::i64_text(rank as i64).as_str());
    buf.append("</h5></div><a href=\"/user/");
    buf.append(crate::text::i64_text(user_id).as_str());
    buf.append("/ranking\"><h4 class=\"name\">");
    push_text(&mut buf, username);
    buf.append("</h4></a><div class=\"rating row narrow\"><h4 class=\"");
    buf.append(name.as_str());
    buf.append(" color\">");
    push_text(&mut buf, rating);
    buf.append("</h4><h6>RP</h6></div></div>");
    buf
}

/// The header of a leaderboard entry: the map, with a link to its page, and where there is
/// a first run, that run's player (with a link) and time.
pub open spec fn entry_header_markup(section_id: i32, map: Seq<char>, top: Option<crate::types::PartialRun>) -> Seq<char> {
    "<div class=\"header\"><a href=\"../../../map/"@ + crate::text::int_text(section_id as int) + "\"><h2>"@
        + escaped_text(map) + "</h2></a>"@ + (match top {
        Some(r) => "<a href=\"/user/"@ + crate::text::int_text(r.user.user_id as int) + "/leaderboard\"><h5>"@
            + escaped_text(r.user.username@) + "</h5></a><h5>"@ + crate::time::decimal_text(r.time.mantissa, r.time.scale)
            + " seconds</h5>"@,
        None => Seq::empty(),
    }) + "</div>"@
}

/// The header of a leaderboard entry, from its numbered runs: the first of them is shown.
pub fn entry_header(section_id: i32, map: &str, entries: &Vec<(usize, crate::types::PartialRun)>) -> (r: String)
    requires
        entries@.len() > 0 ==> entries@[0].1.time.wf(),
    ensures
        r@ == entry_header_markup(
            section_id,
            map@,
            if entries@.len() > 0 {
                Some(entries@[0].1)
            } else {
                None
            },
        ),
{
    let mut buf = String::from_str("<div class=\"header\"><a href=\"../../../map/");
    buf.append(crate::text::i64_text(section_id as i64).as_str());
    buf.append("\"><h2>");
    push_text(&mut buf, map);
    buf.append("</h2></a>");
    if entries.len() > 0 {
        let top = &entries[0].1;
        buf.append("<a href=\"/user/");
        buf.append(crate::text::i64_text(top.user.user_id).as_str());
        buf.append("/leaderboard\"><h5>");
        push_text(&mut buf, top.user.username.as_str());
        buf.append("</h5></a><h5>");
        buf.append(crate::time::time_to_string(&top.time).as_str());
        buf.append(" seconds</h5>");
    }
    buf.append("</div>");
    buf
}

/// The rows of a run list, or the note that there are none.
pub open spec fn rows_or(rows: Seq<String>, none: Seq<char>) -> Seq<char> {
    if rows.len() == 0 {
        none
    } else {
        entries_markup(rows, rows.len() as int)
    }
}

/// Concatenates the rows of a list, or gives `none` where there are none.
fn rows_or_note(rows: &Vec<String>, none: &str) -> (r: String)
    ensures
        r@ == rows_or(rows@, none@),
{
    if rows.len() == 0 {
        return String::from_str(none);
    }
    let mut buf = String::new();
    for i in 0..rows.len()
        invariant
            buf@ == entries_markup(rows@, i as int),
    {
        buf.append(rows[i].as_str());
        proof {
            assert(buf@ =~= entries_markup(rows@, i + 1));
        }
    }
    buf
}

/// The ranks of a leaderboard entry: its rows, or a note where no run is listed.
pub fn entry_ranks(rows: &Vec<String>) -> (r: String)
    ensures
        r@ == rows_or(rows@, "<span class=\"no-data\">No Runs Found</span>"@),
{
    rows_or_note(rows, "<span class=\"no-data\">No Runs Found</span>")
}

/// The run list of a map page: its rows, or a heading saying that no run is listed.
pub fn MapRunList(rows: &Vec<String>) -> (r: String)
    ensures
        r@ == rows_or(rows@, "<h2>No Runs Found</h2>"@),
{
    rows_or_note(rows, "<h2>No Runs Found</h2>")
}

/// The link of the selected proof, where one is selected.
pub open spec fn proof_link(p: Option<Proof>) -> Option<Seq<char>> {
    match p {
        Some(x) => Some(x.url@),
        None => None,
    }
}

/// The selected proof is a YouTube video, so the player shows its play button.
pub open spec fn has_video(p: Option<Proof>) -> bool {
    p matches Some(x) && x.yt_id is Some
}

/// The state of a video player: the selected proof and whether the video plays.
#[derive(Clone, Debug, PartialEq, Eq)]
pub struct PlayerState {
    pub proof: Option<Proof>,
    pub playing: bool,
}

/// What happens to a video player: another proof is selected, or its play button is
/// pressed.
#[derive(Clone, Debug, PartialEq, Eq)]
pub enum PlayerEvent {
    Select(Option<Proof>),
    Click,
}

/// The state after one event: selecting a proof with another link (or selecting one where
/// there was none, or none where there was one) stops the video; pressing play starts it,
/// where the selected proof is a YouTube video and so has a play button.
pub open spec fn player_next(s: PlayerState, e: PlayerEvent) -> PlayerState {
    match e {
        PlayerEvent::Select(p) => PlayerState {
            proof: p,
            playing: s.playing && proof_link(s.proof) == proof_link(p),
        },
        PlayerEvent::Click => PlayerState { proof: s.proof, playing: s.playing || has_video(s.proof) },
    }
}

/// The state after a sequence of events.
pub open spec fn player_after(s: PlayerState, events: Seq<PlayerEvent>) -> PlayerState
    decreases events.len(),
{
    if events.len() == 0 {
        s
    } else {
        player_next(player_after(s, events.drop_last()), events.last())
    }
}

/// Moves a video player on by one event.
pub fn player_step(state: PlayerState, event: PlayerEvent) -> (r: PlayerState)
    ensures
        r == player_next(state, event),
{
    match event {
        PlayerEvent::Select(p) => {
            let same = match (&state.proof, &p) {
                (Some(a), Some(b)) => crate::text::str_eq(a.url.as_str(), b.url.as_str()),
                (None, None) => true,
                _ => false,
            };
            PlayerState { proof: p, playing: state.playing && same }
        },
        PlayerEvent::Click => {
            let video = match &state.proof {
                Some(x) => x.yt_id.is_some(),
                None => false,
            };
            PlayerState { playing: state.playing || video, proof: state.proof }
        },
    }
}

/// The first `k` events of a longer sequence lead where they led before it grew.
proof fn lemma_player_after_prefix(s: PlayerState, events: Seq<PlayerEvent>, e: PlayerEvent, k: int)
    requires
        0 <= k <= events.len(),
    ensures
        player_after(s, events.push(e).take(k)) == player_after(s, events.take(k)),
{
    assert(events.push(e).take(k) =~= events.take(k));
}

/// The link stays that of the proof selected at event `i` through every later event.
pub open spec fn link_kept_since(s: PlayerState, events: Seq<PlayerEvent>, i: int) -> bool {
    forall|j: int|
        #![trigger player_after(s, events.take(j))]
        i < j <= events.len() ==> proof_link(player_after(s, events.take(j)).proof) == proof_link(
            player_after(s, events.take(i)).proof,
        )
}

/// A player that was not playing plays only after its play button was pressed while a
/// YouTube proof was selected, with no proof of another link selected since.
pub proof fn lemma_player_plays_only_after_click(s: PlayerState, events: Seq<PlayerEvent>)
    requires
        !s.playing,
    ensures
        player_after(s, events).playing ==> exists|i: int|
            #![trigger events[i]]
            0 <= i < events.len() && events[i] is Click && has_video(player_after(s, events.take(i)).proof)
                && link_kept_since(s, events, i),
    decreases events.len(),
{
    if events.len() > 0 && player_after(s, events).playing {
        let before = events.drop_last();
        let e = events.last();
        let n = before.len() as int;
        assert(before.push(e) =~= events);
        assert(events.take(n) =~= before);
        assert(events.take(n + 1) =~= events);
        let last = player_after(s, before);
        assert forall|k: int| 0 <= k <= n implies player_after(s, events.take(k)) == player_after(s, before.take(k)) by {
            lemma_player_after_prefix(s, before, e, k);
        }
        if last.playing {
            lemma_player_plays_only_after_click(s, before);
            let i = choose|i: int|
                #![trigger before[i]]
                0 <= i < before.len() && before[i] is Click && has_video(player_after(s, before.take(i)).proof)
                    && link_kept_since(s, before, i);
            assert(before.take(n) =~= before);
            assert(events[i] == before[i]);
            assert(link_kept_since(s, events, i)) by {
                assert forall|j: int| i < j <= events.len() implies #[trigger] proof_link(
                    player_after(s, events.take(j)).proof,
                ) == proof_link(player_after(s, events.take(i)).proof) by {
                    if j <= n {
                        assert(player_after(s, before.take(j)) == player_after(s, events.take(j)));
                    } else {
                        assert(player_after(s, before.take(n)) == last);
                    }
                }
            }
        } else {
            assert(e is Click);
            assert(events[n] == e);
            assert(link_kept_since(s, events, n));
        }
    }
}

/// The links of two proofs being equal, so is whether each is a YouTube video.
pub open spec fn same_link_same_video(p: Option<Proof>, q: Option<Proof>) -> bool {
    proof_link(p) == proof_link(q) ==> has_video(p) == has_video(q)
}

/// While a player plays, the selected proof is a YouTube video (so the video it shows
/// exists), provided no selection keeps the link of the proof before it while changing
/// whether it is a YouTube video.
pub proof fn lemma_player_plays_a_video(s: PlayerState, events: Seq<PlayerEvent>)
    requires
        s.playing ==> has_video(s.proof),
        forall|i: int|
            #![trigger events[i]]
            0 <= i < events.len() ==> (events[i] matches PlayerEvent::Select(p) ==> same_link_same_video(
                player_after(s, events.take(i)).proof,
                p,
            )),
    ensures
        player_after(s, events).playing ==> has_video(player_after(s, events).proof),
    decreases events.len(),
{
    if events.len() > 0 {
        let before = events.drop_last();
        let n = before.len() as int;
        assert(events.take(n) =~= before);
        assert forall|i: int| 0 <= i < before.len() implies (#[trigger] before[i] matches PlayerEvent::Select(p)
            ==> same_link_same_video(player_after(s, before.take(i)).proof, p)) by {
            assert(events[i] == before[i]);
            assert(events.take(i) =~= before.take(i));
        }
        lemma_player_plays_a_video(s, before);
        assert(events[n] == events.last());
    }
}

} // verus!
