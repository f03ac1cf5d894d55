//! The announcements sent to Discord: which event gets which message, and every text of it.
use crate::auth::{utf8_bytes, youtube_link};
use crate::text::{i64_text, int_text, wide_text};
use crate::time::{decimal_difference, decimal_text, time_sub, time_to_string, RunTime, Timestamp};
use crate::types::{Activity, PartialRun, Run, Title};
use vstd::prelude::*;

verus! {

/// A byte that percent-encoding leaves as it is: an ASCII letter or digit, `-`, `.`, `_`, `~`.
pub open spec fn url_safe_byte(b: u8) -> bool {
    (48 <= b <= 57) || (65 <= b <= 90) || (97 <= b <= 122) || b == 45 || b == 46 || b == 95 || b == 126
}

/// The upper-case hexadecimal digit of `d` (`0 <= d < 16`).
pub open spec fn hex_digit(d: int) -> char {
    if d < 10 {
        (48 + d) as char
    } else {
        (55 + d) as char
    }
}

/// The percent-encoded form of some bytes: a safe byte stays as its character, every
/// other byte becomes `%` and two upper-case hexadecimal digits.
pub open spec fn percent_encoded(bytes: Seq<u8>) -> Seq<char>
    decreases bytes.len(),
{
    if bytes.len() == 0 {
        Seq::empty()
    } else {
        let b = bytes.last();
        let tail = if url_safe_byte(b) {
            seq![b as char]
        } else {
            seq!['%', hex_digit(b as int / 16), hex_digit(b as int % 16)]
        };
        percent_encoded(bytes.drop_last()) + tail
    }
}

/// A character a percent-encoded text may hold: an ASCII letter or digit, `-`, `.`, `_`,
/// `~`, or the `%` that starts an escape.
pub open spec fn url_char(c: char) -> bool {
    ('0' <= c <= '9') || ('A' <= c <= 'Z') || ('a' <= c <= 'z') || c == '-' || c == '.' || c == '_' || c == '~'
        || c == '%'
}

/// A percent-encoded text holds nothing but URL-safe characters: no space, quote or
/// other character that would end or break a link.
pub proof fn lemma_percent_encoded_is_url_safe(bytes: Seq<u8>)
    ensures
        forall|i: int| 0 <= i < percent_encoded(bytes).len() ==> url_char(#[trigger] percent_encoded(bytes)[i]),
    decreases bytes.len(),
{
    if bytes.len() > 0 {
        lemma_percent_encoded_is_url_safe(bytes.drop_last());
        let p = percent_encoded(bytes.drop_last());
        let b = bytes.last();
        let tail = if url_safe_byte(b) {
            seq![b as char]
        } else {
            seq!['%', hex_digit(b as int / 16), hex_digit(b as int % 16)]
        };
        assert(percent_encoded(bytes) == p + tail);
        assert forall|i: int| 0 <= i < tail.len() implies url_char(#[trigger] tail[i]) by {
            if !url_safe_byte(b) && i > 0 {
                assert(0 <= b as int / 16 < 16);
                assert(0 <= b as int % 16 < 16);
            }
        }
        assert forall|i: int| 0 <= i < percent_encoded(bytes).len() implies url_char(#[trigger] percent_encoded(bytes)[i]) by {
            if i >= p.len() {
                assert(percent_encoded(bytes)[i] == tail[i - p.len()]);
            } else {
                assert(percent_encoded(bytes)[i] == p[i]);
            }
        }
    }
}

/// Percent-encodes the UTF-8 bytes of a text (`urlencoding::encode`): every byte but ASCII
/// letters, digits, `-`, `_`, `.` and `~` becomes `%XX`.
#[verifier::external_body]
fn url_encode(s: &str) -> (r: String)
    ensures
        r@ == percent_encoded(utf8_bytes(s@)),
{
    urlencoding::encode(s).into_owned()
}

/// Which announcement a newly submitted run gets.
#[derive(Clone, Copy, Debug, PartialEq, Eq)]
pub enum RunNotice {
    WorldRecord,
    PersonalBest,
    NoNotice,
}

/// A world record is announced as such; a personal best that is no world record as a
/// personal best; any other run is not announced.
pub fn run_notice(run: &Run) -> (r: RunNotice)
    ensures
        r == (if run.is_wr {
            RunNotice::WorldRecord
        } else if run.is_pb {
            RunNotice::PersonalBest
        } else {
            RunNotice::NoNotice
        }),
{
    if run.is_wr {
        RunNotice::WorldRecord
    } else if run.is_pb {
        RunNotice::PersonalBest
    } else {
        RunNotice::NoNotice
    }
}

/// Which announcement an entry of the activity feed gets.
#[derive(Clone, Copy, Debug, PartialEq, Eq)]
pub enum ActivityNotice {
    TitleChange,
    RankChange,
    Joined,
}

/// The announcement of an activity entry: a title change where both titles are known,
/// else a rank change where both ranks are known, else a player joining.
pub fn activity_notice(a: &Activity) -> (r: ActivityNotice)
    ensures
        r == (if a.title_old is Some && a.title_new is Some {
            ActivityNotice::TitleChange
        } else if a.rank_old is Some && a.rank_new is Some {
            ActivityNotice::RankChange
        } else {
            ActivityNotice::Joined
        }),
{
    if a.title_old.is_some() && a.title_new.is_some() {
        ActivityNotice::TitleChange
    } else if a.rank_old.is_some() && a.rank_new.is_some() {
        ActivityNotice::RankChange
    } else {
        ActivityNotice::Joined
    }
}

/// Whether an activity entry changes the player's Discord role: it gives a new title in
/// the combined ranking of a patch (no layout, no category).
pub fn syncs_role(a: &Activity) -> (r: bool)
    ensures
        r == (a.title_new is Some && a.layout is None && a.category is None),
{
    a.title_new.is_some() && a.layout.is_none() && a.category.is_none()
}

/// One field of an embed.
#[derive(Clone, Debug, PartialEq, Eq)]
pub struct EmbedField {
    pub name: String,
    pub value: String,
    pub inline: bool,
}

/// The embed that announces a run.
#[derive(Clone, Debug, PartialEq, Eq)]
pub struct RunEmbed {
    pub color: u32,
    pub title: String,
    pub url: String,
    pub thumbnail: String,
    pub description: String,
    pub fields: Vec<EmbedField>,
    pub footer: String,
}

/// The colour of a personal best announcement.
pub const PB_COLOR: u32 = 16764928;

/// The colour of a world record announcement, and of a title gained.
pub const WR_COLOR: u32 = 7798548;

/// The colour of a title lost.
pub const TITLE_LOST_COLOR: u32 = 12064000;

/// The colour of a player joining.
pub const JOIN_COLOR: u32 = 1342207;

/// `"https://lucio.surf/cdn/maps/"` + the encoded map name + `".jpg"`.
pub open spec fn spec_thumbnail(map: Seq<char>) -> Seq<char> {
    "https://lucio.surf/cdn/maps/"@ + percent_encoded(utf8_bytes(map)) + ".jpg"@
}

/// The picture of a map, as a link.
pub fn map_thumbnail(map: &str) -> (r: String)
    ensures
        r@ == spec_thumbnail(map@),
{
    let mut s = String::from_str("https://lucio.surf/cdn/maps/");
    let enc = url_encode(map);
    s.append(enc.as_str());
    s.append(".jpg");
    s
}

/// The lines that place a run: patch, layout, category and map.
pub open spec fn spec_run_place(patch: Seq<char>, layout: Seq<char>, category: Seq<char>, map: Seq<char>) -> Seq<char> {
    "Patch: *"@ + patch + "*\nLayout: *"@ + layout + "*\nCategory: *"@ + category + "*\nMap: *"@ + map + "*"@
}

/// The lines that place a run: patch, layout, category and map.
pub fn run_place(run: &Run) -> (r: String)
    ensures
        r@ == spec_run_place(run.section.patch@, run.section.layout@, run.section.category@, run.section.map@),
{
    let mut s = String::from_str("Patch: *");
    s.append(run.section.patch.as_str());
    s.append("*\nLayout: *");
    s.append(run.section.layout.as_str());
    s.append("*\nCategory: *");
    s.append(run.section.category.as_str());
    s.append("*\nMap: *");
    s.append(run.section.map.as_str());
    s.append("*");
    s
}

/// The lines that describe one run: its time, its video and its date.
pub open spec fn spec_run_lines(time: RunTime, yt_id: Seq<char>, at: Timestamp) -> Seq<char> {
    "Time: *"@ + decimal_text(time.mantissa, time.scale) + "*\nProof: *[link](https://youtube.com/watch?v="@
        + yt_id + ")*\nDate: *<t:"@ + int_text(at.secs as int) + ">*"@
}

/// The lines that describe one run: its time, its video and its date.
pub fn run_lines(time: &RunTime, yt_id: &str, at: &Timestamp) -> (r: String)
    requires
        time.wf(),
    ensures
        r@ == spec_run_lines(*time, yt_id@, *at),
{
    let mut s = String::from_str("Time: *");
    s.append(time_to_string(time).as_str());
    s.append("*\nProof: *[link](https://youtube.com/watch?v=");
    s.append(yt_id);
    s.append(")*\nDate: *<t:");
    s.append(i64_text(at.secs).as_str());
    s.append(">*");
    s
}

/// The line that names the player of a run.
pub open spec fn spec_user_line(name: Seq<char>) -> Seq<char> {
    "User: *"@ + name + "*\n"@
}

/// What stands for a previous run where there is none.
pub open spec fn spec_no_previous() -> Seq<char> {
    "User: *none*\nTime: *none*\nProof: *none*\nDate: *none*"@
}

/// What stands for a comparison where there is no previous run.
pub open spec fn spec_no_comparison() -> Seq<char> {
    "Time save: *undefined*\nAchieved after: *undefined*"@
}

/// `a` divided by `b > 0`, rounded toward zero.
pub open spec fn tdiv(a: int, b: int) -> int {
    if a >= 0 {
        a / b
    } else {
        -((-a) / b)
    }
}

/// The remainder of [`tdiv`], with the sign of `a`.
pub open spec fn trem(a: int, b: int) -> int {
    a - b * tdiv(a, b)
}

/// The whole seconds from `earlier` to `later`, rounded toward zero (chrono's
/// `TimeDelta::num_seconds` of the difference of two instants).
pub open spec fn elapsed_secs(later: Timestamp, earlier: Timestamp) -> int {
    tdiv(later.value() - earlier.value(), 1_000_000_000)
}

/// A span of time told in whole weeks, days, hours, minutes and seconds.
#[derive(Clone, Copy, Debug, PartialEq, Eq)]
pub struct Elapsed {
    pub weeks: i128,
    pub days: i128,
    pub hours: i128,
    pub mins: i128,
    pub secs: i128,
}

/// The span of `s` whole seconds as chrono tells it: whole weeks, then days, hours,
/// minutes and seconds past the larger unit (each rounded toward zero).
pub open spec fn spec_elapsed(s: int) -> Elapsed {
    Elapsed {
        weeks: tdiv(tdiv(s, 86400), 7) as i128,
        days: trem(tdiv(s, 86400), 7) as i128,
        hours: trem(tdiv(s, 3600), 24) as i128,
        mins: trem(tdiv(s, 60), 60) as i128,
        secs: trem(s, 60) as i128,
    }
}

/// The time that passed from `earlier` to `later`, broken down.
pub fn elapsed(later: &Timestamp, earlier: &Timestamp) -> (r: Elapsed)
    requires
        later.wf(),
        earlier.wf(),
    ensures
        r == spec_elapsed(elapsed_secs(*later, *earlier)),
{
    let nanos: i128 = (later.secs as i128 - earlier.secs as i128) * 1_000_000_000
        + (later.nanos as i128 - earlier.nanos as i128);
    let s: i128 = nanos / 1_000_000_000;
    let days: i128 = s / 86400;
    Elapsed { weeks: days / 7, days: days % 7, hours: (s / 3600) % 24, mins: (s / 60) % 60, secs: s % 60 }
}

/// The comparison of a new run with the previous one: the time saved and how long after.
pub open spec fn spec_comparison(saved: RunTime, e: Elapsed) -> Seq<char> {
    "Time save: *"@ + decimal_text(saved.mantissa, saved.scale) + "*\nAchieved after: *"@
        + int_text(e.weeks as int) + " weeks, "@ + int_text(e.days as int) + " days, "@
        + int_text(e.hours as int) + " hours, "@ + int_text(e.mins as int) + " mins, "@
        + int_text(e.secs as int) + " secs*"@
}

/// The comparison text from the time saved and the span between the runs.
pub fn comparison(saved: &RunTime, e: &Elapsed) -> (r: String)
    requires
        saved.wf(),
    ensures
        r@ == spec_comparison(*saved, *e),
{
    let mut s = String::from_str("Time save: *");
    s.append(time_to_string(saved).as_str());
    s.append("*\nAchieved after: *");
    s.append(wide_text(e.weeks).as_str());
    s.append(" weeks, ");
    s.append(wide_text(e.days).as_str());
    s.append(" days, ");
    s.append(wide_text(e.hours).as_str());
    s.append(" hours, ");
    s.append(wide_text(e.mins).as_str());
    s.append(" mins, ");
    s.append(wide_text(e.secs).as_str());
    s.append(" secs*");
    s
}

/// What a run announcement needs of its runs: a video for the new run and for the
/// previous one, and well formed times and instants.
pub open spec fn announcement_ready(new: Run, old: Option<PartialRun>) -> bool {
    &&& new.yt_id is Some
    &&& new.time.wf()
    &&& new.created_at.wf()
    &&& (old matches Some(o) ==> o.yt_id is Some && o.wf())
}

/// The previous time less the new one, as `Decimal::checked_sub` gives it.
pub open spec fn time_saved(new: Run, o: PartialRun) -> Option<(i128, u32)> {
    decimal_difference(o.time.mantissa, o.time.scale, new.time.mantissa, new.time.scale)
}

/// The fields of a run announcement, by name, value and inline flag: the new run, the
/// previous one and the comparison.
pub open spec fn spec_fields(new: Run, old: Option<PartialRun>, record: bool, saved: Option<RunTime>) -> Seq<(Seq<char>, Seq<char>, bool)> {
    let user_line = if record {
        spec_user_line(new.user.username@)
    } else {
        Seq::empty()
    };
    let new_value = user_line + spec_run_lines(new.time, new.yt_id.unwrap()@, new.created_at);
    let old_value = match old {
        Some(o) => (if record {
            spec_user_line(o.user.username@)
        } else {
            Seq::empty()
        }) + spec_run_lines(o.time, o.yt_id.unwrap()@, o.created_at),
        None => spec_no_previous(),
    };
    let compared = match old {
        Some(o) => spec_comparison(saved.unwrap(), spec_elapsed(elapsed_secs(new.created_at, o.created_at))),
        None => spec_no_comparison(),
    };
    seq![
        (if record { "New Record"@ } else { "New PB"@ }, new_value, true),
        (if record { "Old Record"@ } else { "Old PB"@ }, old_value, true),
        ("Comparison"@, compared, false),
    ]
}

/// The name, value and inline flag of an embed field.
pub open spec fn field_view(f: EmbedField) -> (Seq<char>, Seq<char>, bool) {
    (f.name@, f.value@, f.inline)
}

/// The announcement `e` says of the runs what a record (`record`) or personal best
/// announcement says, the time saved being `saved`.
pub open spec fn announces(e: RunEmbed, new: Run, old: Option<PartialRun>, record: bool, saved: Option<RunTime>) -> bool {
    &&& e.color == (if record { WR_COLOR } else { PB_COLOR })
    &&& e.title@ == (if record { "New World Record by "@ } else { "New Personal Best by "@ }) + new.user.username@
    &&& e.url@ == "https://youtube.com/watch?v="@ + new.yt_id.unwrap()@
    &&& e.thumbnail@ == spec_thumbnail(new.section.map@)
    &&& e.description@ == spec_run_place(new.section.patch@, new.section.layout@, new.section.category@, new.section.map@)
    &&& e.fields@.map_values(|f: EmbedField| field_view(f)) == spec_fields(new, old, record, saved)
    &&& e.footer@ == "ID: "@ + int_text(new.id as int)
}

/// `s` ends with `suffix`.
pub open spec fn ends_with(s: Seq<char>, suffix: Seq<char>) -> bool {
    suffix.len() <= s.len() && s.subrange(s.len() - suffix.len(), s.len() as int) == suffix
}

/// The closing line of a run's lines: its date, as Discord's timestamp markup.
pub open spec fn date_line(at: Timestamp) -> Seq<char> {
    "Date: *<t:"@ + int_text(at.secs as int) + ">*"@
}

/// The closing lines of a run's lines: the link to its video, then its date.
pub open spec fn video_date_lines(yt_id: Seq<char>, at: Timestamp) -> Seq<char> {
    "[link](https://youtube.com/watch?v="@ + yt_id + ")*\n"@ + date_line(at)
}

/// The lines of a run, after anything, end with the link to that run's video and then
/// that run's date.
proof fn lemma_run_lines_end(p: Seq<char>, time: RunTime, yt_id: Seq<char>, at: Timestamp)
    ensures
        ends_with(p + spec_run_lines(time, yt_id, at), video_date_lines(yt_id, at)),
        ends_with(p + spec_run_lines(time, yt_id, at), date_line(at)),
{
    reveal_strlit(")*\nDate: *<t:");
    reveal_strlit(")*\n");
    reveal_strlit("Date: *<t:");
    reveal_strlit("*\nProof: *[link](https://youtube.com/watch?v=");
    reveal_strlit("*\nProof: *");
    reveal_strlit("[link](https://youtube.com/watch?v=");
    assert(")*\nDate: *<t:"@ =~= ")*\n"@ + "Date: *<t:"@);
    assert("*\nProof: *[link](https://youtube.com/watch?v="@ =~= "*\nProof: *"@ + "[link](https://youtube.com/watch?v="@);
    let head = p + ("Time: *"@ + decimal_text(time.mantissa, time.scale) + "*\nProof: *"@);
    let w = head + ("[link](https://youtube.com/watch?v="@ + yt_id + ")*\n"@);
    let v = p + spec_run_lines(time, yt_id, at);
    assert(v =~= w + date_line(at));
    assert(v.subrange(w.len() as int, v.len() as int) =~= date_line(at));
    assert(v =~= head + video_date_lines(yt_id, at));
    assert(v.subrange(head.len() as int, v.len() as int) =~= video_date_lines(yt_id, at));
}

/// In a run announcement the fields are the new run (`New Record` or `New PB`), the run
/// it beat (`Old Record` or `Old PB`) and the comparison; the field of the new run ends
/// with the new run's video and date, the field of the run it beat with that run's own
/// video and date.
pub proof fn lemma_announcement_runs(
    e: RunEmbed,
    new: Run,
    old: Option<PartialRun>,
    record: bool,
    saved: Option<RunTime>,
)
    requires
        announces(e, new, old, record, saved),
    ensures
        e.fields@.len() == 3,
        e.fields@[0].name@ == (if record { "New Record"@ } else { "New PB"@ }),
        e.fields@[1].name@ == (if record { "Old Record"@ } else { "Old PB"@ }),
        e.fields@[2].name@ == "Comparison"@,
        ends_with(e.fields@[0].value@, video_date_lines(new.yt_id.unwrap()@, new.created_at)),
        ends_with(e.fields@[0].value@, date_line(new.created_at)),
        old matches Some(o) ==> ends_with(e.fields@[1].value@, video_date_lines(o.yt_id.unwrap()@, o.created_at)),
        old matches Some(o) ==> ends_with(e.fields@[1].value@, date_line(o.created_at)),
{
    let fs = spec_fields(new, old, record, saved);
    assert(e.fields@.map_values(|f: EmbedField| field_view(f)) == fs);
    assert(e.fields@.len() == 3);
    assert(field_view(e.fields@[0]) == fs[0]);
    assert(field_view(e.fields@[1]) == fs[1]);
    assert(field_view(e.fields@[2]) == fs[2]);
    let user_line = if record {
        spec_user_line(new.user.username@)
    } else {
        Seq::empty()
    };
    lemma_run_lines_end(user_line, new.time, new.yt_id.unwrap()@, new.created_at);
    if let Some(o) = old {
        let old_user = if record {
            spec_user_line(o.user.username@)
        } else {
            Seq::empty()
        };
        lemma_run_lines_end(old_user, o.time, o.yt_id.unwrap()@, o.created_at);
    }
}

/// The time saved over the previous run, where there is one, as a run time.
pub open spec fn saved_time(new: Run, old: Option<PartialRun>) -> Option<RunTime> {
    match old {
        Some(o) => match time_saved(new, o) {
            Some((m, s)) => Some(RunTime { mantissa: m, scale: s }),
            None => None,
        },
        None => None,
    }
}

/// The announcement of a new world record (`record`) or personal best, with the run it
/// beat, where there is one. `None` where the time saved cannot be computed (the two
/// times differ by more than a decimal holds).
pub fn run_embed(new: &Run, old: &Option<PartialRun>, record: bool) -> (r: Option<RunEmbed>)
    requires
        announcement_ready(*new, *old),
    ensures
        r is None <==> (*old matches Some(o) && time_saved(*new, o) is None),
        r matches Some(e) ==> announces(e, *new, *old, record, saved_time(*new, *old)),
{
    let yt = match &new.yt_id {
        Some(y) => y,
        None => {
            return None;
        },
    };
    let (old_value, compared) = match old {
        Some(o) => {
            let saved = match time_sub(&o.time, &new.time) {
                Some(d) => d,
                None => {
                    return None;
                },
            };
            let o_yt = match &o.yt_id {
                Some(y) => y,
                None => {
                    return None;
                },
            };
            let mut v = if record {
                user_line(&o.user.username)
            } else {
                String::new()
            };
            v.append(run_lines(&o.time, o_yt.as_str(), &o.created_at).as_str());
            let e = elapsed(&new.created_at, &o.created_at);
            (v, comparison(&saved, &e))
        },
        None => (
            String::from_str("User: *none*\nTime: *none*\nProof: *none*\nDate: *none*"),
            String::from_str("Time save: *undefined*\nAchieved after: *undefined*"),
        ),
    };
    let mut new_value = if record {
        user_line(&new.user.username)
    } else {
        String::new()
    };
    new_value.append(run_lines(&new.time, yt.as_str(), &new.created_at).as_str());
    let mut fields: Vec<EmbedField> = Vec::new();
    fields.push(EmbedField {
        name: if record {
            String::from_str("New Record")
        } else {
            String::from_str("New PB")
        },
        value: new_value,
        inline: true,
    });
    fields.push(EmbedField {
        name: if record {
            String::from_str("Old Record")
        } else {
            String::from_str("Old PB")
        },
        value: old_value,
        inline: true,
    });
    fields.push(EmbedField { name: String::from_str("Comparison"), value: compared, inline: false });
    let mut title = if record {
        String::from_str("New World Record by ")
    } else {
        String::from_str("New Personal Best by ")
    };
    title.append(new.user.username.as_str());
    let mut footer = String::from_str("ID: ");
    footer.append(i64_text(new.id as i64).as_str());
    let embed = RunEmbed {
        color: if record {
            WR_COLOR
        } else {
            PB_COLOR
        },
        title,
        url: youtube_link(yt),
        thumbnail: map_thumbnail(new.section.map.as_str()),
        description: run_place(new),
        fields,
        footer,
    };
    proof {
        assert(embed.fields@.map_values(|f: EmbedField| field_view(f)) =~= spec_fields(
            *new,
            *old,
            record,
            saved_time(*new, *old),
        ));
    }
    Some(embed)
}

/// The line that names a player.
fn user_line(name: &String) -> (r: String)
    ensures
        r@ == spec_user_line(name@),
{
    let mut s = String::from_str("User: *");
    s.append(name.as_str());
    s.append("*\n");
    s
}

/// The embed that announces a title change.
#[derive(Clone, Debug, PartialEq, Eq)]
pub struct TitleEmbed {
    pub color: u32,
    pub title: String,
    pub description: String,
    pub old_name: String,
    pub new_name: String,
}

/// The line that says in which ranking a title changed: a layout and category, or the
/// combined ranking where either is missing.
pub open spec fn spec_title_description(a: Activity) -> Seq<char> {
    match (a.layout, a.category) {
        (Some(l), Some(c)) => "User: *"@ + a.user.username@ + "*\nCombo: *Layout "@ + l@ + " - "@ + c@ + "*"@,
        _ => "User: *"@ + a.user.username@ + "*\nCombo: *Combined*"@,
    }
}

/// The announcement of a title change: the colour of a gain where the new title ranks
/// above the old one, else that of a loss; the ranking; the old and the new title.
pub fn title_embed(a: &Activity) -> (r: TitleEmbed)
    requires
        a.title_old is Some,
        a.title_new is Some,
    ensures
        r.color == (if a.title_new.unwrap().spec_level() > a.title_old.unwrap().spec_level() {
            WR_COLOR
        } else {
            TITLE_LOST_COLOR
        }),
        r.title@ == "Title update"@,
        r.description@ == spec_title_description(*a),
        r.old_name@ == a.title_old.unwrap().spec_name(),
        r.new_name@ == a.title_new.unwrap().spec_name(),
{
    let (old, new): (Title, Title) = match (&a.title_old, &a.title_new) {
        (Some(o), Some(n)) => (*o, *n),
        _ => (Title::NoTitle, Title::NoTitle),
    };
    let mut description = String::from_str("User: *");
    description.append(a.user.username.as_str());
    match (&a.layout, &a.category) {
        (Some(l), Some(c)) => {
            description.append("*\nCombo: *Layout ");
            description.append(l.as_str());
            description.append(" - ");
            description.append(c.as_str());
            description.append("*");
        },
        _ => {
            description.append("*\nCombo: *Combined*");
        },
    }
    TitleEmbed {
        color: if new.is_above(&old) {
            WR_COLOR
        } else {
            TITLE_LOST_COLOR
        },
        title: String::from_str("Title update"),
        description,
        old_name: old.name(),
        new_name: new.name(),
    }
}

/// The embed that announces a player joining the leaderboards.
#[derive(Clone, Debug, PartialEq, Eq)]
pub struct JoinEmbed {
    pub color: u32,
    pub title: String,
}

/// The announcement of a player joining the leaderboards.
pub fn join_embed(a: &Activity) -> (r: JoinEmbed)
    ensures
        r.color == JOIN_COLOR,
        r.title@ == a.user.username@ + " joined the leaderboards!"@,
{
    let mut title = a.user.username.clone();
    title.append(" joined the leaderboards!");
    JoinEmbed { color: JOIN_COLOR, title }
}

/// What the site tells Discord of a player for their linked role: the platform, the
/// player's name, and the title level per patch.
#[derive(Clone, Debug, PartialEq, Eq)]
pub struct RoleConnection {
    pub platform_name: String,
    pub platform_username: String,
    pub metadata: Vec<(String, i32)>,
}

/// The name of the platform in a role connection.
pub open spec fn platform() -> Seq<char> {
    "Lucio Surf League"@
}

/// The key and value of a metadata entry.
pub open spec fn entry_view(e: (String, i32)) -> (Seq<char>, i32) {
    (e.0@, e.1)
}

/// The role connection after a title change in a combined ranking: the new title's
/// level under the key of the current patch.
pub fn title_role_connection(a: &Activity) -> (r: RoleConnection)
    requires
        a.title_new is Some,
    ensures
        r.platform_name@ == platform(),
        r.platform_username@ == a.user.username@,
        r.metadata@.map_values(|e: (String, i32)| entry_view(e)) == seq![("2_13"@, a.title_new.unwrap().spec_level() as i32)],
{
    let level: i32 = match &a.title_new {
        Some(t) => t.level(),
        None => 0,
    };
    let mut metadata: Vec<(String, i32)> = Vec::new();
    metadata.push((String::from_str("2_13"), level));
    proof {
        assert(metadata@.map_values(|e: (String, i32)| entry_view(e)) =~= seq![("2_13"@, level)]);
    }
    RoleConnection {
        platform_name: String::from_str("Lucio Surf League"),
        platform_username: a.user.username.clone(),
        metadata,
    }
}

/// A player's title in the combined ranking of a patch.
#[derive(Clone, Debug, PartialEq, Eq)]
pub struct RankTitle {
    pub patch: String,
    pub username: String,
    pub title: Title,
}

/// The metadata key of a patch: its dots become underscores.
pub open spec fn patch_key(patch: Seq<char>) -> Seq<char> {
    Seq::new(patch.len(), |i: int| if patch[i] == '.' { '_' } else { patch[i] })
}

/// The metadata key of a patch: its dots become underscores (`str::replace`).
pub fn metadata_key(patch: &str) -> (r: String)
    ensures
        r@ == patch_key(patch@),
{
    let mut key = String::new();
    for ch in it: patch.chars()
        invariant
            it.seq() == patch@,
            key@ == patch_key(patch@.take(it.index() as int)),
    {
        proof {
            let i = it.index() as int;
            assert(patch_key(patch@.take(i + 1)) =~= patch_key(patch@.take(i)).push(
                if ch == '.' { '_' } else { ch },
            ));
        }
        if ch == '.' {
            crate::text::push_char(&mut key, '_');
        } else {
            crate::text::push_char(&mut key, ch);
        }
    }
    proof {
        assert(patch@.take(patch@.len() as int) =~= patch@);
    }
    key
}

/// No later ranking has the same key as the `i`-th.
pub open spec fn last_of_key(ranks: Seq<RankTitle>, i: int) -> bool {
    forall|j: int| i < j < ranks.len() ==> patch_key(#[trigger] ranks[j].patch@) != patch_key(ranks[i].patch@)
}

/// The metadata of the first `n` rankings: for each key, the level of the last title
/// given under it, in the order of those last titles.
pub open spec fn role_metadata(ranks: Seq<RankTitle>, n: int) -> Seq<(Seq<char>, i32)>
    decreases n,
{
    if n <= 0 {
        Seq::empty()
    } else {
        role_metadata(ranks, n - 1) + (if last_of_key(ranks, n - 1) {
            seq![(patch_key(ranks[n - 1].patch@), ranks[n - 1].title.spec_level() as i32)]
        } else {
            Seq::empty()
        })
    }
}

/// The role connection for a player's titles in the combined rankings: named after the
/// first ranking's player; a title per patch key, the last given winning. `None` where
/// there is no ranking.
pub fn ranks_role_connection(ranks: &Vec<RankTitle>) -> (r: Option<RoleConnection>)
    ensures
        r is None <==> ranks@.len() == 0,
        r matches Some(c) ==> {
            &&& c.platform_name@ == platform()
            &&& c.platform_username@ == ranks@[0].username@
            &&& c.metadata@.map_values(|e: (String, i32)| entry_view(e)) == role_metadata(ranks@, ranks@.len() as int)
        },
{
    if ranks.len() == 0 {
        return None;
    }
    let mut keys: Vec<String> = Vec::new();
    for i in 0..ranks.len()
        invariant
            keys@.len() == i,
            forall|k: int| 0 <= k < i ==> #[trigger] keys@[k]@ == patch_key(ranks@[k].patch@),
    {
        keys.push(metadata_key(ranks[i].patch.as_str()));
    }
    let mut metadata: Vec<(String, i32)> = Vec::new();
    for i in 0..ranks.len()
        invariant
            keys@.len() == ranks@.len(),
            forall|k: int| 0 <= k < ranks@.len() ==> #[trigger] keys@[k]@ == patch_key(ranks@[k].patch@),
            metadata@.map_values(|e: (String, i32)| entry_view(e)) == role_metadata(ranks@, i as int),
    {
        let mut last = true;
        let mut j = i + 1;
        while j < ranks.len()
            invariant
                i < j <= ranks@.len(),
                keys@.len() == ranks@.len(),
                forall|k: int| 0 <= k < ranks@.len() ==> #[trigger] keys@[k]@ == patch_key(ranks@[k].patch@),
                last == (forall|m: int| i < m < j ==> patch_key(#[trigger] ranks@[m].patch@) != patch_key(ranks@[i as int].patch@)),
            decreases ranks@.len() - j,
        {
            if crate::text::str_eq(keys[j].as_str(), keys[i].as_str()) {
                last = false;
            }
            proof {
                assert(keys@[j as int]@ == patch_key(ranks@[j as int].patch@));
                assert(keys@[i as int]@ == patch_key(ranks@[i as int].patch@));
            }
            j = j + 1;
        }
        if last {
            metadata.push((keys[i].clone(), ranks[i].title.level()));
        }
        proof {
            assert(keys@[i as int]@ == patch_key(ranks@[i as int].patch@));
            assert(last == last_of_key(ranks@, i as int));
            assert(metadata@.map_values(|e: (String, i32)| entry_view(e)) =~= role_metadata(ranks@, i + 1));
        }
    }
    Some(RoleConnection {
        platform_name: String::from_str("Lucio Surf League"),
        platform_username: ranks[0].username.clone(),
        metadata,
    })
}

/// Whether a stored access token may still be used: it expires after `now`.
pub fn token_fresh(expires_at: &Timestamp, now: &Timestamp) -> (r: bool)
    requires
        expires_at.wf(),
        now.wf(),
    ensures
        r == (now.value() < expires_at.value()),
{
    crate::time::instant_lt(now, expires_at)
}

/// Some ranking before `n` that is the last of its key has the key `key`.
spec fn keyed_by_last(ranks: Seq<RankTitle>, n: int, key: Seq<char>) -> bool {
    exists|i: int| #![trigger last_of_key(ranks, i)] 0 <= i < n && last_of_key(ranks, i) && key == patch_key(ranks[i].patch@)
}

/// Every entry of the metadata of the first `n` rankings comes from a ranking before
/// `n` that is the last of its key.
proof fn lemma_metadata_sources(ranks: Seq<RankTitle>, n: int)
    requires
        0 <= n <= ranks.len(),
    ensures
        forall|k: int| 0 <= k < role_metadata(ranks, n).len() ==> #[trigger] keyed_by_last(ranks, n, role_metadata(ranks, n)[k].0),
    decreases n,
{
    if n > 0 {
        lemma_metadata_sources(ranks, n - 1);
        let prev = role_metadata(ranks, n - 1);
        let cur = role_metadata(ranks, n);
        assert forall|k: int| 0 <= k < cur.len() implies #[trigger] keyed_by_last(ranks, n, cur[k].0) by {
            if k < prev.len() {
                assert(cur[k] == prev[k]);
                assert(keyed_by_last(ranks, n - 1, prev[k].0));
                let i = choose|i: int| #![trigger last_of_key(ranks, i)] 0 <= i < n - 1 && last_of_key(ranks, i) && prev[k].0 == patch_key(ranks[i].patch@);
                assert(last_of_key(ranks, i));
            } else {
                assert(cur[k].0 == patch_key(ranks[n - 1].patch@));
                assert(last_of_key(ranks, n - 1));
            }
        }
    }
}

/// The role metadata names each patch key once: no two entries share a key.
pub proof fn lemma_role_metadata_keys_distinct(ranks: Seq<RankTitle>, n: int)
    requires
        0 <= n <= ranks.len(),
    ensures
        forall|a: int, b: int|
            0 <= a < b < role_metadata(ranks, n).len() ==> #[trigger] role_metadata(ranks, n)[a].0
                != #[trigger] role_metadata(ranks, n)[b].0,
    decreases n,
{
    if n > 0 {
        lemma_role_metadata_keys_distinct(ranks, n - 1);
        lemma_metadata_sources(ranks, n - 1);
        let prev = role_metadata(ranks, n - 1);
        let cur = role_metadata(ranks, n);
        assert forall|a: int, b: int| 0 <= a < b < cur.len() implies #[trigger] cur[a].0 != #[trigger] cur[b].0 by {
            assert(cur[a] == prev[a]);
            if b < prev.len() {
                assert(cur[b] == prev[b]);
            } else {
                assert(keyed_by_last(ranks, n - 1, prev[a].0));
                let i = choose|i: int| #![trigger last_of_key(ranks, i)] 0 <= i < n - 1 && last_of_key(ranks, i) && prev[a].0 == patch_key(ranks[i].patch@);
                assert(last_of_key(ranks, i));
                assert(patch_key(ranks[n - 1].patch@) != patch_key(ranks[i].patch@));
                assert(cur[b].0 == patch_key(ranks[n - 1].patch@));
            }
        }
    }
}

/// Nested division rounded toward zero is division by the product.
proof fn lemma_tdiv_nested(s: int, a: int, b: int)
    requires
        a > 0,
        b > 0,
    ensures
        tdiv(tdiv(s, a), b) == tdiv(s, a * b),
{
    if s >= 0 {
        vstd::arithmetic::div_mod::lemma_div_denominator(s, a, b);
        vstd::arithmetic::div_mod::lemma_div_pos_is_pos(s, a);
    } else {
        vstd::arithmetic::div_mod::lemma_div_denominator(-s, a, b);
        vstd::arithmetic::div_mod::lemma_div_pos_is_pos(-s, a);
    }
}

/// The parts of an elapsed time add up to it: weeks, days, hours, minutes and seconds
/// together are the whole seconds that passed.
pub proof fn lemma_elapsed_adds_up(s: int)
    requires
        -0x1_0000_0000_0000_0000_0000 < s < 0x1_0000_0000_0000_0000_0000,
    ensures
        604800 * spec_elapsed(s).weeks + 86400 * spec_elapsed(s).days + 3600 * spec_elapsed(s).hours
            + 60 * spec_elapsed(s).mins + spec_elapsed(s).secs == s,
{
    lemma_tdiv_nested(s, 60, 60);
    lemma_tdiv_nested(s, 3600, 24);
    let m = tdiv(s, 60);
    let h = tdiv(s, 3600);
    let d = tdiv(s, 86400);
    let w = tdiv(d, 7);
    assert(tdiv(m, 60) == h);
    assert(tdiv(h, 24) == d);
    assert(s == 60 * m + trem(s, 60));
    assert(m == 60 * h + trem(m, 60));
    assert(h == 24 * d + trem(h, 24));
    assert(d == 7 * w + trem(d, 7));
    assert(0 <= s ==> 0 <= m <= s) by {
        if 0 <= s {
            vstd::arithmetic::div_mod::lemma_div_pos_is_pos(s, 60);
            vstd::arithmetic::div_mod::lemma_div_is_ordered_by_denominator(s, 1, 60);
        }
    }
    assert(s < 0 ==> s <= m <= 0) by {
        if s < 0 {
            vstd::arithmetic::div_mod::lemma_div_pos_is_pos(-s, 60);
            vstd::arithmetic::div_mod::lemma_div_is_ordered_by_denominator(-s, 1, 60);
        }
    }
}

} // verus!
