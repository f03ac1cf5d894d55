//! The database queries behind the run and activity lists, built as a sequence of SQL
//! text and bound values, and the filters that the list pages read from their URL.
use crate::text::{non_empty, non_empty_param, opt_text, parse_i64, prefix_chars, spec_parse_i64, str_eq, take_chars};
use crate::time::{decimal_parse, parse_time, RunTime, Timestamp};
use crate::types::ApiError;
use chrono::TimeZone;
use vstd::prelude::*;

verus! {

/// A value bound into a query.
#[derive(Clone, Debug, PartialEq)]
pub enum SqlArg {
    Bool(bool),
    Int(i64),
    Int32(i32),
    Text(String),
    Time(RunTime),
    Instant(Timestamp),
    /// A text that may be `NULL`.
    OptText(Option<String>),
}

/// The abstract form of a bound value.
pub enum ArgView {
    Bool(bool),
    Int(i64),
    Int32(i32),
    Text(Seq<char>),
    Time(RunTime),
    Instant(Timestamp),
    OptText(Option<Seq<char>>),
}

/// One piece of a query: SQL text, or a bound value (written `$n` in the text).
#[derive(Clone, Debug, PartialEq)]
pub enum QueryPart {
    Sql(String),
    Bind(SqlArg),
}

/// The abstract form of a query piece.
pub enum PartView {
    Sql(Seq<char>),
    Bind(ArgView),
}

impl SqlArg {
    pub open spec fn spec_view(self) -> ArgView {
        match self {
            SqlArg::Bool(b) => ArgView::Bool(b),
            SqlArg::Int(i) => ArgView::Int(i),
            SqlArg::Int32(i) => ArgView::Int32(i),
            SqlArg::Text(s) => ArgView::Text(s@),
            SqlArg::Time(t) => ArgView::Time(t),
            SqlArg::Instant(t) => ArgView::Instant(t),
            SqlArg::OptText(t) => ArgView::OptText(crate::text::opt_text(t)),
        }
    }
}

impl QueryPart {
    pub open spec fn spec_view(self) -> PartView {
        match self {
            QueryPart::Sql(s) => PartView::Sql(s@),
            QueryPart::Bind(a) => PartView::Bind(a.spec_view()),
        }
    }
}

/// The abstract form of a query.
pub open spec fn parts_view(parts: Seq<QueryPart>) -> Seq<PartView> {
    parts.map_values(|p: QueryPart| p.spec_view())
}

/// The SQL text of a query with each bound value left as a hole.
pub open spec fn skeleton(parts: Seq<PartView>) -> Seq<Option<Seq<char>>> {
    parts.map_values(
        |p: PartView|
            match p {
                PartView::Sql(t) => Some(t),
                PartView::Bind(_) => None,
            },
    )
}

proof fn lemma_skeleton_add(a: Seq<PartView>, b: Seq<PartView>)
    ensures
        skeleton(a + b) == skeleton(a) + skeleton(b),
{
    assert(skeleton(a + b) =~= skeleton(a) + skeleton(b));
}

/// A condition with a bound value, present where the value is.
pub open spec fn clause(prefix: Seq<char>, arg: Option<ArgView>) -> Seq<PartView> {
    match arg {
        Some(a) => seq![PartView::Sql(prefix), PartView::Bind(a)],
        None => Seq::empty(),
    }
}

pub open spec fn int_arg(v: Option<i64>) -> Option<ArgView> {
    match v {
        Some(i) => Some(ArgView::Int(i)),
        None => None,
    }
}

pub open spec fn text_arg(v: Option<String>) -> Option<ArgView> {
    match v {
        Some(s) => Some(ArgView::Text(s@)),
        None => None,
    }
}

pub open spec fn time_arg(v: Option<RunTime>) -> Option<ArgView> {
    match v {
        Some(t) => Some(ArgView::Time(t)),
        None => None,
    }
}

pub open spec fn instant_arg(v: Option<Timestamp>) -> Option<ArgView> {
    match v {
        Some(t) => Some(ArgView::Instant(t)),
        None => None,
    }
}

pub(crate) fn push_sql(parts: &mut Vec<QueryPart>, text: &str)
    ensures
        parts_view(final(parts)@) == parts_view(old(parts)@).push(PartView::Sql(text@)),
{
    parts.push(QueryPart::Sql(String::from_str(text)));
    proof {
        assert(parts_view(parts@) =~= parts_view(old(parts)@).push(PartView::Sql(text@)));
    }
}

pub(crate) fn push_bind(parts: &mut Vec<QueryPart>, arg: SqlArg)
    ensures
        parts_view(final(parts)@) == parts_view(old(parts)@).push(PartView::Bind(arg.spec_view())),
{
    let ghost a = arg;
    parts.push(QueryPart::Bind(arg));
    proof {
        assert(parts_view(parts@) =~= parts_view(old(parts)@).push(PartView::Bind(a.spec_view())));
    }
}

fn push_clause(parts: &mut Vec<QueryPart>, prefix: &str, arg: Option<SqlArg>)
    ensures
        parts_view(final(parts)@) == parts_view(old(parts)@) + clause(
            prefix@,
            match arg {
                Some(a) => Some(a.spec_view()),
                None => None,
            },
        ),
{
    match arg {
        Some(a) => {
            push_sql(parts, prefix);
            push_bind(parts, a);
        },
        None => {},
    }
    proof {
        assert(parts_view(parts@) =~= parts_view(old(parts)@) + clause(
            prefix@,
            match arg {
                Some(a) => Some(a.spec_view()),
                None => None,
            },
        ));
    }
}

fn opt_text_clone(v: &Option<String>) -> (r: Option<SqlArg>)
    ensures
        match r {
            Some(a) => Some(a.spec_view()),
            None => None::<ArgView>,
        } == text_arg(*v),
{
    match v {
        Some(s) => Some(SqlArg::Text(s.clone())),
        None => None,
    }
}

/// What the run list can be narrowed and ordered by.
#[derive(Clone, Debug, PartialEq)]
pub struct RunFilters {
    pub user: Option<i64>,
    pub patch: Option<String>,
    pub layout: Option<String>,
    pub category: Option<String>,
    pub map: Option<String>,
    pub faster: Option<RunTime>,
    pub slower: Option<RunTime>,
    pub before: Option<Timestamp>,
    pub after: Option<Timestamp>,
    pub sort: String,
    pub ascending: bool,
}

impl RunFilters {
    /// No narrowing; newest first.
    pub fn default() -> (r: RunFilters)
        ensures
            r.user is None && r.patch is None && r.layout is None && r.category is None
                && r.map is None && r.faster is None && r.slower is None && r.before is None
                && r.after is None && r.sort@ == "created_at"@ && !r.ascending,
    {
        RunFilters {
            user: None,
            patch: None,
            layout: None,
            category: None,
            map: None,
            faster: None,
            slower: None,
            before: None,
            after: None,
            sort: String::from_str("created_at"),
            ascending: false,
        }
    }
}

/// The columns selected for the run list.
pub const RUNS_SELECT: &'static str = "SELECT run.id, run.created_at, section_id, patch, layout, 
            category, map, user_id, \"name\", time, proof, yt_id, verified, is_pb, is_wr
        FROM run
        INNER JOIN section s ON section_id = s.id
        INNER JOIN \"user\" u ON user_id = u.id 
        WHERE 1 = 1";

/// The direction word of an order.
pub open spec fn direction(ascending: bool) -> Seq<char> {
    if ascending {
        "ASC"@
    } else {
        "DESC"@
    }
}

/// The `ORDER BY` terms of the run list: by section, by time, or (for any other key)
/// by date.
pub open spec fn run_order_text(sort: Seq<char>, ascending: bool) -> Seq<char> {
    let d = direction(ascending);
    if sort == "section"@ {
        "patch "@ + d + ", layout "@ + d + ", category "@ + d + ", map "@ + d
    } else if sort == "time"@ {
        "time "@ + d
    } else {
        "run.created_at "@ + d
    }
}

/// The conditions of the run list query.
pub open spec fn runs_conditions(f: RunFilters) -> Seq<PartView> {
    seq![PartView::Sql(RUNS_SELECT@)] + clause(" AND user_id = "@, int_arg(f.user)) + clause(
        " AND run.created_at <= "@,
        instant_arg(f.before),
    ) + clause(" AND run.created_at >= "@, instant_arg(f.after)) + clause(
        " AND patch = "@,
        text_arg(f.patch),
    ) + clause(" AND layout = "@, text_arg(f.layout)) + clause(
        " AND category = "@,
        text_arg(f.category),
    ) + clause(" AND map = "@, text_arg(f.map)) + clause(" AND time <= "@, time_arg(f.faster))
        + clause(" AND time >= "@, time_arg(f.slower))
}

/// The ordering and paging of a list query.
pub open spec fn page_tail(order: Seq<char>, offset: i32) -> Seq<PartView> {
    seq![
        PartView::Sql(" ORDER BY "@),
        PartView::Sql(order),
        PartView::Sql(" LIMIT 50 OFFSET "@),
        PartView::Bind(ArgView::Int32(offset)),
        PartView::Sql(";"@),
    ]
}

/// The query of one page of the run list.
pub open spec fn spec_runs_query(f: RunFilters, offset: i32) -> Seq<PartView> {
    runs_conditions(f) + page_tail(run_order_text(f.sort@, f.ascending), offset)
}

/// Appends the ordering and paging of a list query.
fn push_page_tail(q: &mut Vec<QueryPart>, order: &str, offset: i32)
    ensures
        parts_view(final(q)@) == parts_view(old(q)@) + page_tail(order@, offset),
{
    push_sql(q, " ORDER BY ");
    push_sql(q, order);
    push_sql(q, " LIMIT 50 OFFSET ");
    push_bind(q, SqlArg::Int32(offset));
    push_sql(q, ";");
    proof {
        assert(parts_view(q@) =~= parts_view(old(q)@) + page_tail(order@, offset));
    }
}

fn direction_text(ascending: bool) -> (r: &'static str)
    ensures
        r@ == direction(ascending),
{
    if ascending {
        "ASC"
    } else {
        "DESC"
    }
}

fn run_order(sort: &String, ascending: bool) -> (r: String)
    ensures
        r@ == run_order_text(sort@, ascending),
{
    let d = direction_text(ascending);
    if str_eq(sort.as_str(), "section") {
        String::from_str("patch ").concat(d).concat(", layout ").concat(d).concat(
            ", category ",
        ).concat(d).concat(", map ").concat(d)
    } else if str_eq(sort.as_str(), "time") {
        String::from_str("time ").concat(d)
    } else {
        String::from_str("run.created_at ").concat(d)
    }
}

/// The query of one page (50 runs from `offset`) of the run list.
pub fn runs_query(f: &RunFilters, offset: i32) -> (r: Vec<QueryPart>)
    ensures
        parts_view(r@) == spec_runs_query(*f, offset),
{
    let mut q: Vec<QueryPart> = Vec::new();
    push_sql(&mut q, RUNS_SELECT);
    assert(parts_view(q@) =~= seq![PartView::Sql(RUNS_SELECT@)]);
    push_clause(&mut q, " AND user_id = ", match f.user { Some(u) => Some(SqlArg::Int(u)), None => None });
    push_clause(&mut q, " AND run.created_at <= ", match f.before { Some(t) => Some(SqlArg::Instant(t)), None => None });
    push_clause(&mut q, " AND run.created_at >= ", match f.after { Some(t) => Some(SqlArg::Instant(t)), None => None });
    push_clause(&mut q, " AND patch = ", opt_text_clone(&f.patch));
    push_clause(&mut q, " AND layout = ", opt_text_clone(&f.layout));
    push_clause(&mut q, " AND category = ", opt_text_clone(&f.category));
    push_clause(&mut q, " AND map = ", opt_text_clone(&f.map));
    push_clause(&mut q, " AND time <= ", match f.faster { Some(t) => Some(SqlArg::Time(t)), None => None });
    push_clause(&mut q, " AND time >= ", match f.slower { Some(t) => Some(SqlArg::Time(t)), None => None });
    let order = run_order(&f.sort, f.ascending);
    push_page_tail(&mut q, order.as_str(), offset);
    q
}

proof fn lemma_clause_skeleton(p: Seq<char>, x: Option<ArgView>, y: Option<ArgView>)
    requires
        x is Some == y is Some,
    ensures
        skeleton(clause(p, x)) == skeleton(clause(p, y)),
{
    assert(skeleton(clause(p, x)) =~= skeleton(clause(p, y)));
}

/// Two run filters narrow by the same fields and order alike.
pub open spec fn same_run_shape(a: RunFilters, b: RunFilters) -> bool {
    &&& a.user is Some == b.user is Some
    &&& a.patch is Some == b.patch is Some
    &&& a.layout is Some == b.layout is Some
    &&& a.category is Some == b.category is Some
    &&& a.map is Some == b.map is Some
    &&& a.faster is Some == b.faster is Some
    &&& a.slower is Some == b.slower is Some
    &&& a.before is Some == b.before is Some
    &&& a.after is Some == b.after is Some
    &&& (a.sort@ == "section"@) == (b.sort@ == "section"@)
    &&& (a.sort@ == "time"@) == (b.sort@ == "time"@)
    &&& a.ascending == b.ascending
}

/// What a visitor puts in the run filters only ever reaches the query as bound values:
/// filters that narrow by the same fields and order alike give the same SQL text.
pub proof fn lemma_runs_query_text_fixed(a: RunFilters, b: RunFilters, oa: i32, ob: i32)
    requires
        same_run_shape(a, b),
    ensures
        skeleton(spec_runs_query(a, oa)) == skeleton(spec_runs_query(b, ob)),
{
    let base = seq![PartView::Sql(RUNS_SELECT@)];
    let ca = seq![
        clause(" AND user_id = "@, int_arg(a.user)),
        clause(" AND run.created_at <= "@, instant_arg(a.before)),
        clause(" AND run.created_at >= "@, instant_arg(a.after)),
        clause(" AND patch = "@, text_arg(a.patch)),
        clause(" AND layout = "@, text_arg(a.layout)),
        clause(" AND category = "@, text_arg(a.category)),
        clause(" AND map = "@, text_arg(a.map)),
        clause(" AND time <= "@, time_arg(a.faster)),
        clause(" AND time >= "@, time_arg(a.slower)),
    ];
    let cb = seq![
        clause(" AND user_id = "@, int_arg(b.user)),
        clause(" AND run.created_at <= "@, instant_arg(b.before)),
        clause(" AND run.created_at >= "@, instant_arg(b.after)),
        clause(" AND patch = "@, text_arg(b.patch)),
        clause(" AND layout = "@, text_arg(b.layout)),
        clause(" AND category = "@, text_arg(b.category)),
        clause(" AND map = "@, text_arg(b.map)),
        clause(" AND time <= "@, time_arg(b.faster)),
        clause(" AND time >= "@, time_arg(b.slower)),
    ];
    lemma_clause_skeleton(" AND user_id = "@, int_arg(a.user), int_arg(b.user));
    lemma_clause_skeleton(" AND run.created_at <= "@, instant_arg(a.before), instant_arg(b.before));
    lemma_clause_skeleton(" AND run.created_at >= "@, instant_arg(a.after), instant_arg(b.after));
    lemma_clause_skeleton(" AND patch = "@, text_arg(a.patch), text_arg(b.patch));
    lemma_clause_skeleton(" AND layout = "@, text_arg(a.layout), text_arg(b.layout));
    lemma_clause_skeleton(" AND category = "@, text_arg(a.category), text_arg(b.category));
    lemma_clause_skeleton(" AND map = "@, text_arg(a.map), text_arg(b.map));
    lemma_clause_skeleton(" AND time <= "@, time_arg(a.faster), time_arg(b.faster));
    lemma_clause_skeleton(" AND time >= "@, time_arg(a.slower), time_arg(b.slower));
    lemma_fold_skeleton(base, ca, cb, 9);
    reveal_with_fuel(seq_fold, 10);
    assert(seq_fold(base, ca, 9) == runs_conditions(a));
    assert(seq_fold(base, cb, 9) == runs_conditions(b));
    let ta = page_tail(run_order_text(a.sort@, a.ascending), oa);
    let tb = page_tail(run_order_text(b.sort@, b.ascending), ob);
    assert(skeleton(ta) =~= skeleton(tb));
    lemma_skeleton_add(runs_conditions(a), ta);
    lemma_skeleton_add(runs_conditions(b), tb);
}

proof fn lemma_fold_skeleton(base: Seq<PartView>, ca: Seq<Seq<PartView>>, cb: Seq<Seq<PartView>>, k: int)
    requires
        0 <= k <= ca.len(),
        ca.len() == cb.len(),
        forall|i: int| 0 <= i < ca.len() ==> skeleton(#[trigger] ca[i]) == skeleton(cb[i]),
    ensures
        skeleton(seq_fold(base, ca, k)) == skeleton(seq_fold(base, cb, k)),
    decreases k,
{
    if k > 0 {
        lemma_fold_skeleton(base, ca, cb, k - 1);
        lemma_skeleton_add(seq_fold(base, ca, k - 1), ca[k - 1]);
        lemma_skeleton_add(seq_fold(base, cb, k - 1), cb[k - 1]);
    }
}

/// `base` followed by the first `k` pieces.
pub open spec fn seq_fold(base: Seq<PartView>, pieces: Seq<Seq<PartView>>, k: int) -> Seq<PartView>
    decreases k,
{
    if k <= 0 {
        base
    } else {
        seq_fold(base, pieces, k - 1) + pieces[k - 1]
    }
}

/// What the activity feed can be narrowed and ordered by.
#[derive(Clone, Debug, PartialEq)]
pub struct ActivityFilters {
    pub event: Option<String>,
    pub user: Option<i64>,
    pub patch: Option<String>,
    pub layout: Option<String>,
    pub category: Option<String>,
    pub before: Option<Timestamp>,
    pub after: Option<Timestamp>,
    pub sort: String,
    pub ascending: bool,
}

impl ActivityFilters {
    /// No narrowing; newest first.
    pub fn default() -> (r: ActivityFilters)
        ensures
            r.event is None && r.user is None && r.patch is None && r.layout is None
                && r.category is None && r.before is None && r.after is None && r.sort@
                == "created_at"@ && !r.ascending,
    {
        ActivityFilters {
            event: None,
            user: None,
            patch: None,
            layout: None,
            category: None,
            before: None,
            after: None,
            sort: String::from_str("created_at"),
            ascending: false,
        }
    }
}

/// The columns selected for the activity feed.
pub const ACTIVITY_SELECT: &'static str = "SELECT a.id, a.user_id, name, rank_id, patch, layout, category, 
                    title_old, title_new, rank_old, rank_new, a.created_at
                FROM activity a
                INNER JOIN \"user\" u ON a.user_id = u.id
                LEFT JOIN rank r ON rank_id = r.id
                WHERE 1 = 1";

/// The condition an `event` filter adds: players who joined, rank changes, or title
/// changes; any other event adds none.
pub open spec fn event_condition(event: Option<Seq<char>>) -> Seq<PartView> {
    match event {
        Some(e) => if e == "join"@ {
            seq![PartView::Sql(" AND rank_id IS NULL"@)]
        } else if e == "rank"@ {
            seq![PartView::Sql(" AND rank_new IS NOT NULL"@)]
        } else if e == "title"@ {
            seq![PartView::Sql(" AND title_new IS NOT NULL"@)]
        } else {
            Seq::empty()
        },
        None => Seq::empty(),
    }
}

/// The direction of the activity order, with its leading space.
pub open spec fn spaced_direction(ascending: bool) -> Seq<char> {
    if ascending {
        " ASC"@
    } else {
        " DESC"@
    }
}

/// The `ORDER BY` terms of the activity feed: by section, or (for any other key) by date.
pub open spec fn activity_order_text(sort: Seq<char>, ascending: bool) -> Seq<char> {
    let d = spaced_direction(ascending);
    if sort == "section"@ {
        "patch "@ + d + ", layout "@ + d + ", category "@ + d
    } else {
        "a.created_at "@ + d
    }
}

/// The conditions of the activity feed query.
pub open spec fn activity_conditions(f: ActivityFilters) -> Seq<PartView> {
    seq![PartView::Sql(ACTIVITY_SELECT@)] + event_condition(opt_text(f.event)) + clause(
        " AND a.user_id = "@,
        int_arg(f.user),
    ) + clause(" AND patch = "@, text_arg(f.patch)) + clause(
        " AND layout = "@,
        text_arg(f.layout),
    ) + clause(" AND category = "@, text_arg(f.category)) + clause(
        " AND a.created_at <= "@,
        instant_arg(f.before),
    ) + clause(" AND a.created_at >= "@, instant_arg(f.after))
}

/// The query of one page of the activity feed.
pub open spec fn spec_activity_query(f: ActivityFilters, offset: i32) -> Seq<PartView> {
    activity_conditions(f) + page_tail(activity_order_text(f.sort@, f.ascending), offset)
}

fn push_event_condition(q: &mut Vec<QueryPart>, event: &Option<String>)
    ensures
        parts_view(final(q)@) == parts_view(old(q)@) + event_condition(opt_text(*event)),
{
    match event {
        Some(e) => {
            if str_eq(e.as_str(), "join") {
                push_sql(q, " AND rank_id IS NULL");
            } else if str_eq(e.as_str(), "rank") {
                push_sql(q, " AND rank_new IS NOT NULL");
            } else if str_eq(e.as_str(), "title") {
                push_sql(q, " AND title_new IS NOT NULL");
            }
        },
        None => {},
    }
    proof {
        assert(parts_view(q@) =~= parts_view(old(q)@) + event_condition(opt_text(*event)));
    }
}

fn activity_order(sort: &String, ascending: bool) -> (r: String)
    ensures
        r@ == activity_order_text(sort@, ascending),
{
    let d = if ascending {
        " ASC"
    } else {
        " DESC"
    };
    if str_eq(sort.as_str(), "section") {
        String::from_str("patch ").concat(d).concat(", layout ").concat(d).concat(
            ", category ",
        ).concat(d)
    } else {
        String::from_str("a.created_at ").concat(d)
    }
}

/// The query of one page (50 entries from `offset`) of the activity feed.
pub fn activity_query(f: &ActivityFilters, offset: i32) -> (r: Vec<QueryPart>)
    ensures
        parts_view(r@) == spec_activity_query(*f, offset),
{
    let mut q: Vec<QueryPart> = Vec::new();
    push_sql(&mut q, ACTIVITY_SELECT);
    assert(parts_view(q@) =~= seq![PartView::Sql(ACTIVITY_SELECT@)]);
    push_event_condition(&mut q, &f.event);
    push_clause(&mut q, " AND a.user_id = ", match f.user { Some(u) => Some(SqlArg::Int(u)), None => None });
    push_clause(&mut q, " AND patch = ", opt_text_clone(&f.patch));
    push_clause(&mut q, " AND layout = ", opt_text_clone(&f.layout));
    push_clause(&mut q, " AND category = ", opt_text_clone(&f.category));
    push_clause(&mut q, " AND a.created_at <= ", match f.before { Some(t) => Some(SqlArg::Instant(t)), None => None });
    push_clause(&mut q, " AND a.created_at >= ", match f.after { Some(t) => Some(SqlArg::Instant(t)), None => None });
    let order = activity_order(&f.sort, f.ascending);
    push_page_tail(&mut q, order.as_str(), offset);
    q
}

/// The kind of event an `event` filter asks for: players who joined, rank changes, title
/// changes, or any event.
pub open spec fn event_kind(event: Option<Seq<char>>) -> int {
    match event {
        Some(e) => if e == "join"@ {
            1
        } else if e == "rank"@ {
            2
        } else if e == "title"@ {
            3
        } else {
            0
        },
        None => 0,
    }
}

/// Two activity filters narrow by the same fields and kind of event, and order alike.
pub open spec fn same_activity_shape(a: ActivityFilters, b: ActivityFilters) -> bool {
    &&& event_kind(opt_text(a.event)) == event_kind(opt_text(b.event))
    &&& a.user is Some == b.user is Some
    &&& a.patch is Some == b.patch is Some
    &&& a.layout is Some == b.layout is Some
    &&& a.category is Some == b.category is Some
    &&& a.before is Some == b.before is Some
    &&& a.after is Some == b.after is Some
    &&& (a.sort@ == "section"@) == (b.sort@ == "section"@)
    &&& a.ascending == b.ascending
}

/// What a visitor puts in the activity filters only ever reaches the query as bound
/// values: filters of the same shape give the same SQL text.
pub proof fn lemma_activity_query_text_fixed(a: ActivityFilters, b: ActivityFilters, oa: i32, ob: i32)
    requires
        same_activity_shape(a, b),
    ensures
        skeleton(spec_activity_query(a, oa)) == skeleton(spec_activity_query(b, ob)),
{
    let base_a = seq![PartView::Sql(ACTIVITY_SELECT@)] + event_condition(opt_text(a.event));
    let base_b = seq![PartView::Sql(ACTIVITY_SELECT@)] + event_condition(opt_text(b.event));
    assert(event_condition(opt_text(a.event)) == event_condition(opt_text(b.event)));
    let ca = seq![
        clause(" AND a.user_id = "@, int_arg(a.user)),
        clause(" AND patch = "@, text_arg(a.patch)),
        clause(" AND layout = "@, text_arg(a.layout)),
        clause(" AND category = "@, text_arg(a.category)),
        clause(" AND a.created_at <= "@, instant_arg(a.before)),
        clause(" AND a.created_at >= "@, instant_arg(a.after)),
    ];
    let cb = seq![
        clause(" AND a.user_id = "@, int_arg(b.user)),
        clause(" AND patch = "@, text_arg(b.patch)),
        clause(" AND layout = "@, text_arg(b.layout)),
        clause(" AND category = "@, text_arg(b.category)),
        clause(" AND a.created_at <= "@, instant_arg(b.before)),
        clause(" AND a.created_at >= "@, instant_arg(b.after)),
    ];
    lemma_clause_skeleton(" AND a.user_id = "@, int_arg(a.user), int_arg(b.user));
    lemma_clause_skeleton(" AND patch = "@, text_arg(a.patch), text_arg(b.patch));
    lemma_clause_skeleton(" AND layout = "@, text_arg(a.layout), text_arg(b.layout));
    lemma_clause_skeleton(" AND category = "@, text_arg(a.category), text_arg(b.category));
    lemma_clause_skeleton(" AND a.created_at <= "@, instant_arg(a.before), instant_arg(b.before));
    lemma_clause_skeleton(" AND a.created_at >= "@, instant_arg(a.after), instant_arg(b.after));
    lemma_fold_skeleton(base_a, ca, cb, 6);
    reveal_with_fuel(seq_fold, 7);
    assert(seq_fold(base_a, ca, 6) == activity_conditions(a));
    assert(seq_fold(base_a, cb, 6) == activity_conditions(b));
    let ta = page_tail(activity_order_text(a.sort@, a.ascending), oa);
    let tb = page_tail(activity_order_text(b.sort@, b.ascending), ob);
    assert(skeleton(ta) =~= skeleton(tb));
    lemma_skeleton_add(activity_conditions(a), ta);
    lemma_skeleton_add(activity_conditions(b), tb);
}

/// The columns selected for a player's own runs of the current patch.
pub const USER_RUNS_SELECT: &'static str = "SELECT run.id, run.created_at, section_id, patch, layout, 
            category, map, user_id, \"name\", time, proof, yt_id, verified, is_pb, is_wr
        FROM run
        INNER JOIN section s ON section_id = s.id
        INNER JOIN \"user\" u ON user_id = u.id 
        WHERE patch = '2.13'";

/// The `ORDER BY` column of a player's run list: by section, by time, or by date.
pub open spec fn user_order_column(sort: Seq<char>) -> Seq<char> {
    if sort == "section"@ {
        "layout, category, map"@
    } else if sort == "time"@ {
        "time"@
    } else {
        "run.created_at"@
    }
}

/// The conditions of a player's run list: the player, then the filters other than the
/// player and patch fields.
pub open spec fn user_runs_conditions(user_id: i64, f: RunFilters) -> Seq<PartView> {
    seq![PartView::Sql(USER_RUNS_SELECT@)] + clause(" AND user_id = "@, Some(ArgView::Int(user_id)))
        + clause(" AND run.created_at <= "@, instant_arg(f.before)) + clause(
        " AND run.created_at >= "@,
        instant_arg(f.after),
    ) + clause(" AND layout = "@, text_arg(f.layout)) + clause(
        " AND category = "@,
        text_arg(f.category),
    ) + clause(" AND map = "@, text_arg(f.map)) + clause(" AND time <= "@, time_arg(f.faster))
        + clause(" AND time >= "@, time_arg(f.slower))
}

/// The ordering and paging of a player's run list.
pub open spec fn user_runs_tail(sort: Seq<char>, ascending: bool, offset: i32) -> Seq<PartView> {
    seq![
        PartView::Sql(" ORDER BY "@),
        PartView::Sql(user_order_column(sort)),
        PartView::Sql(spaced_direction(ascending)),
        PartView::Sql(" LIMIT 50 OFFSET "@),
        PartView::Bind(ArgView::Int32(offset)),
        PartView::Sql(";"@),
    ]
}

/// The query of one page of a player's runs of the current patch; the player and patch
/// fields of the filters are not read.
pub open spec fn spec_user_runs_query(user_id: i64, f: RunFilters, offset: i32) -> Seq<PartView> {
    user_runs_conditions(user_id, f) + user_runs_tail(f.sort@, f.ascending, offset)
}

fn push_user_runs_tail(q: &mut Vec<QueryPart>, sort: &String, ascending: bool, offset: i32)
    ensures
        parts_view(final(q)@) == parts_view(old(q)@) + user_runs_tail(sort@, ascending, offset),
{
    push_sql(q, " ORDER BY ");
    let column = if str_eq(sort.as_str(), "section") {
        "layout, category, map"
    } else if str_eq(sort.as_str(), "time") {
        "time"
    } else {
        "run.created_at"
    };
    push_sql(q, column);
    push_sql(q, if ascending { " ASC" } else { " DESC" });
    push_sql(q, " LIMIT 50 OFFSET ");
    push_bind(q, SqlArg::Int32(offset));
    push_sql(q, ";");
    proof {
        assert(parts_view(q@) =~= parts_view(old(q)@) + user_runs_tail(sort@, ascending, offset));
    }
}

/// The query of one page (50 runs from `offset`) of a player's runs of the current patch.
pub fn user_runs_query(user_id: i64, f: &RunFilters, offset: i32) -> (r: Vec<QueryPart>)
    ensures
        parts_view(r@) == spec_user_runs_query(user_id, *f, offset),
{
    let mut q: Vec<QueryPart> = Vec::new();
    push_sql(&mut q, USER_RUNS_SELECT);
    assert(parts_view(q@) =~= seq![PartView::Sql(USER_RUNS_SELECT@)]);
    push_clause(&mut q, " AND user_id = ", Some(SqlArg::Int(user_id)));
    push_clause(&mut q, " AND run.created_at <= ", match f.before { Some(t) => Some(SqlArg::Instant(t)), None => None });
    push_clause(&mut q, " AND run.created_at >= ", match f.after { Some(t) => Some(SqlArg::Instant(t)), None => None });
    push_clause(&mut q, " AND layout = ", opt_text_clone(&f.layout));
    push_clause(&mut q, " AND category = ", opt_text_clone(&f.category));
    push_clause(&mut q, " AND map = ", opt_text_clone(&f.map));
    push_clause(&mut q, " AND time <= ", match f.faster { Some(t) => Some(SqlArg::Time(t)), None => None });
    push_clause(&mut q, " AND time >= ", match f.slower { Some(t) => Some(SqlArg::Time(t)), None => None });
    push_user_runs_tail(&mut q, &f.sort, f.ascending, offset);
    q
}

/// A run list sorted by time is ordered by the time column in the asked direction, and
/// so not as a list sorted by date (with the same direction) is.
pub proof fn lemma_runs_time_sort(f: RunFilters, g: RunFilters, offset: i32)
    requires
        f.sort@ == "time"@,
        g.sort@ == "created_at"@,
        g.ascending == f.ascending,
    ensures
        ({
            let q = spec_runs_query(f, offset);
            &&& q[q.len() - 5] == PartView::Sql(" ORDER BY "@)
            &&& q[q.len() - 4] == PartView::Sql(if f.ascending { "time ASC"@ } else { "time DESC"@ })
        }),
        ({
            let q = spec_runs_query(f, offset);
            let r = spec_runs_query(g, offset);
            q[q.len() - 4] != r[r.len() - 4]
        }),
{
    reveal_strlit("time");
    reveal_strlit("created_at");
    reveal_strlit("section");
    reveal_strlit("time ");
    reveal_strlit("run.created_at ");
    reveal_strlit("ASC");
    reveal_strlit("DESC");
    reveal_strlit("time ASC");
    reveal_strlit("time DESC");
    assert("time "@ + "ASC"@ =~= "time ASC"@);
    assert("time "@ + "DESC"@ =~= "time DESC"@);
    assert("section"@ != "time"@) by {
        assert("section"@.len() != "time"@.len());
    }
    assert("section"@ != "created_at"@) by {
        assert("section"@.len() != "created_at"@.len());
    }
    assert("time"@ != "created_at"@) by {
        assert("time"@.len() != "created_at"@.len());
    }
    let tf = run_order_text(f.sort@, f.ascending);
    let tg = run_order_text(g.sort@, g.ascending);
    assert(tf[0] != tg[0]);
}

/// The event filter of the activity feed adds one condition right after the selection:
/// `join` that the entry holds no rank, `rank` that it holds a new rank, `title` that it
/// holds a new title.
pub proof fn lemma_activity_event_filter(f: ActivityFilters, offset: i32)
    ensures
        ({
            let q = spec_activity_query(f, offset);
            &&& opt_text(f.event) == Some("join"@) ==> q[1] == PartView::Sql(" AND rank_id IS NULL"@)
            &&& opt_text(f.event) == Some("rank"@) ==> q[1] == PartView::Sql(" AND rank_new IS NOT NULL"@)
            &&& opt_text(f.event) == Some("title"@) ==> q[1] == PartView::Sql(" AND title_new IS NOT NULL"@)
        }),
{
    reveal_strlit("join");
    reveal_strlit("rank");
    reveal_strlit("title");
    assert("join"@ != "rank"@) by {
        assert("join"@[0] != "rank"@[0]);
    }
    assert("join"@ != "title"@) by {
        assert("join"@.len() != "title"@.len());
    }
    assert("rank"@ != "title"@) by {
        assert("rank"@.len() != "title"@.len());
    }
}

/// The three event filters of the activity feed ask for different things: the conditions
/// they add are pairwise different.
pub proof fn lemma_activity_event_filters_differ(
    join: ActivityFilters,
    rank: ActivityFilters,
    title: ActivityFilters,
    offset: i32,
)
    requires
        opt_text(join.event) == Some("join"@),
        opt_text(rank.event) == Some("rank"@),
        opt_text(title.event) == Some("title"@),
    ensures
        spec_activity_query(join, offset)[1] != spec_activity_query(rank, offset)[1],
        spec_activity_query(join, offset)[1] != spec_activity_query(title, offset)[1],
        spec_activity_query(rank, offset)[1] != spec_activity_query(title, offset)[1],
{
    lemma_activity_event_filter(join, offset);
    lemma_activity_event_filter(rank, offset);
    lemma_activity_event_filter(title, offset);
    reveal_strlit(" AND rank_id IS NULL");
    reveal_strlit(" AND rank_new IS NOT NULL");
    reveal_strlit(" AND title_new IS NOT NULL");
    assert(" AND rank_id IS NULL"@.len() != " AND rank_new IS NOT NULL"@.len());
    assert(" AND rank_id IS NULL"@.len() != " AND title_new IS NOT NULL"@.len());
    assert(" AND rank_new IS NOT NULL"@.len() != " AND title_new IS NOT NULL"@.len());
}

/// In a player's run list the `slower` bound is a lower bound on the time (bound right
/// after ` AND time >= `) and the `faster` bound an upper bound (bound right after
/// ` AND time <= `), just before the ordering.
pub proof fn lemma_user_runs_time_bounds(user_id: i64, f: RunFilters, offset: i32)
    ensures
        ({
            let q = spec_user_runs_query(user_id, f, offset);
            let n = q.len() as int;
            &&& f.slower matches Some(t) ==> q[n - 8] == PartView::Sql(" AND time >= "@) && q[n - 7]
                == PartView::Bind(ArgView::Time(t))
            &&& f.faster matches Some(t) ==> {
                let k = if f.slower is Some { n - 10 } else { n - 8 };
                q[k] == PartView::Sql(" AND time <= "@) && q[k + 1] == PartView::Bind(ArgView::Time(t))
            }
            &&& q[n - 6] == PartView::Sql(" ORDER BY "@)
        }),
{
}

/// The query binds `x` right after the SQL text `text`.
pub open spec fn binds_after(q: Seq<PartView>, text: Seq<char>, x: ArgView) -> bool {
    exists|i: int| #![trigger q[i]] 0 <= i && i + 1 < q.len() && q[i] == PartView::Sql(text) && q[i + 1] == PartView::Bind(x)
}

/// A clause at the end of a query binds its value after its text.
proof fn lemma_clause_binds(a: Seq<PartView>, text: Seq<char>, x: ArgView)
    ensures
        binds_after(a + clause(text, Some(x)), text, x),
{
    let q = a + clause(text, Some(x));
    assert(q[a.len() as int] == PartView::Sql(text));
    assert(q[a.len() as int + 1] == PartView::Bind(x));
}

/// What a query binds it still binds with more appended.
proof fn lemma_binds_extend(q: Seq<PartView>, text: Seq<char>, x: ArgView, b: Seq<PartView>)
    requires
        binds_after(q, text, x),
    ensures
        binds_after(q + b, text, x),
{
    let i = choose|i: int| #![trigger q[i]] 0 <= i && i + 1 < q.len() && q[i] == PartView::Sql(text) && q[i + 1] == PartView::Bind(x);
    assert((q + b)[i] == q[i]);
    assert((q + b)[i + 1] == q[i + 1]);
}

/// Every filter of the run list is bound after the condition that applies it: the player
/// to equal `user_id`, `before` as the latest and `after` as the earliest date, the
/// patch, layout, category and map to equal theirs, `faster` as the highest and `slower`
/// as the lowest time.
pub proof fn lemma_runs_query_filters(f: RunFilters, offset: i32)
    ensures
        ({
            let q = spec_runs_query(f, offset);
            &&& f.user matches Some(u) ==> binds_after(q, " AND user_id = "@, ArgView::Int(u))
            &&& f.before matches Some(t) ==> binds_after(q, " AND run.created_at <= "@, ArgView::Instant(t))
            &&& f.after matches Some(t) ==> binds_after(q, " AND run.created_at >= "@, ArgView::Instant(t))
            &&& f.patch matches Some(x) ==> binds_after(q, " AND patch = "@, ArgView::Text(x@))
            &&& f.layout matches Some(x) ==> binds_after(q, " AND layout = "@, ArgView::Text(x@))
            &&& f.category matches Some(x) ==> binds_after(q, " AND category = "@, ArgView::Text(x@))
            &&& f.map matches Some(x) ==> binds_after(q, " AND map = "@, ArgView::Text(x@))
            &&& f.faster matches Some(t) ==> binds_after(q, " AND time <= "@, ArgView::Time(t))
            &&& f.slower matches Some(t) ==> binds_after(q, " AND time >= "@, ArgView::Time(t))
            &&& q[q.len() - 3] == PartView::Sql(" LIMIT 50 OFFSET "@)
            &&& q[q.len() - 2] == PartView::Bind(ArgView::Int32(offset))
        }),
{
    let c = seq![
        seq![PartView::Sql(RUNS_SELECT@)],
        clause(" AND user_id = "@, int_arg(f.user)),
        clause(" AND run.created_at <= "@, instant_arg(f.before)),
        clause(" AND run.created_at >= "@, instant_arg(f.after)),
        clause(" AND patch = "@, text_arg(f.patch)),
        clause(" AND layout = "@, text_arg(f.layout)),
        clause(" AND category = "@, text_arg(f.category)),
        clause(" AND map = "@, text_arg(f.map)),
        clause(" AND time <= "@, time_arg(f.faster)),
        clause(" AND time >= "@, time_arg(f.slower)),
        page_tail(run_order_text(f.sort@, f.ascending), offset),
    ];
    let q = spec_runs_query(f, offset);
    assert(q =~= joined(c, 11)) by {
        reveal_with_fuel(joined, 12);
    }
    lemma_joined_binds(c, 1, " AND user_id = "@, int_arg(f.user));
    lemma_joined_binds(c, 2, " AND run.created_at <= "@, instant_arg(f.before));
    lemma_joined_binds(c, 3, " AND run.created_at >= "@, instant_arg(f.after));
    lemma_joined_binds(c, 4, " AND patch = "@, text_arg(f.patch));
    lemma_joined_binds(c, 5, " AND layout = "@, text_arg(f.layout));
    lemma_joined_binds(c, 6, " AND category = "@, text_arg(f.category));
    lemma_joined_binds(c, 7, " AND map = "@, text_arg(f.map));
    lemma_joined_binds(c, 8, " AND time <= "@, time_arg(f.faster));
    lemma_joined_binds(c, 9, " AND time >= "@, time_arg(f.slower));
}

/// Every filter of a player's run list is bound after the condition that applies it: the
/// player always; `before` as the latest and `after` as the earliest date; layout,
/// category and map to equal theirs; `faster` as the highest and `slower` as the lowest
/// time. The patch and player fields of the filters are not bound.
pub proof fn lemma_user_runs_query_filters(user_id: i64, f: RunFilters, offset: i32)
    ensures
        ({
            let q = spec_user_runs_query(user_id, f, offset);
            &&& binds_after(q, " AND user_id = "@, ArgView::Int(user_id))
            &&& f.before matches Some(t) ==> binds_after(q, " AND run.created_at <= "@, ArgView::Instant(t))
            &&& f.after matches Some(t) ==> binds_after(q, " AND run.created_at >= "@, ArgView::Instant(t))
            &&& f.layout matches Some(x) ==> binds_after(q, " AND layout = "@, ArgView::Text(x@))
            &&& f.category matches Some(x) ==> binds_after(q, " AND category = "@, ArgView::Text(x@))
            &&& f.map matches Some(x) ==> binds_after(q, " AND map = "@, ArgView::Text(x@))
            &&& f.faster matches Some(t) ==> binds_after(q, " AND time <= "@, ArgView::Time(t))
            &&& f.slower matches Some(t) ==> binds_after(q, " AND time >= "@, ArgView::Time(t))
            &&& q[q.len() - 3] == PartView::Sql(" LIMIT 50 OFFSET "@)
            &&& q[q.len() - 2] == PartView::Bind(ArgView::Int32(offset))
        }),
{
    let c = seq![
        seq![PartView::Sql(USER_RUNS_SELECT@)],
        clause(" AND user_id = "@, Some(ArgView::Int(user_id))),
        clause(" AND run.created_at <= "@, instant_arg(f.before)),
        clause(" AND run.created_at >= "@, instant_arg(f.after)),
        clause(" AND layout = "@, text_arg(f.layout)),
        clause(" AND category = "@, text_arg(f.category)),
        clause(" AND map = "@, text_arg(f.map)),
        clause(" AND time <= "@, time_arg(f.faster)),
        clause(" AND time >= "@, time_arg(f.slower)),
        user_runs_tail(f.sort@, f.ascending, offset),
    ];
    let q = spec_user_runs_query(user_id, f, offset);
    assert(q =~= joined(c, 10)) by {
        reveal_with_fuel(joined, 11);
    }
    lemma_joined_binds(c, 1, " AND user_id = "@, Some(ArgView::Int(user_id)));
    lemma_joined_binds(c, 2, " AND run.created_at <= "@, instant_arg(f.before));
    lemma_joined_binds(c, 3, " AND run.created_at >= "@, instant_arg(f.after));
    lemma_joined_binds(c, 4, " AND layout = "@, text_arg(f.layout));
    lemma_joined_binds(c, 5, " AND category = "@, text_arg(f.category));
    lemma_joined_binds(c, 6, " AND map = "@, text_arg(f.map));
    lemma_joined_binds(c, 7, " AND time <= "@, time_arg(f.faster));
    lemma_joined_binds(c, 8, " AND time >= "@, time_arg(f.slower));
}

/// Every filter of the activity feed is bound after the condition that applies it: the
/// player and the patch, layout and category to equal theirs, `before` as the latest and
/// `after` as the earliest date.
pub proof fn lemma_activity_query_filters(f: ActivityFilters, offset: i32)
    ensures
        ({
            let q = spec_activity_query(f, offset);
            &&& f.user matches Some(u) ==> binds_after(q, " AND a.user_id = "@, ArgView::Int(u))
            &&& f.patch matches Some(x) ==> binds_after(q, " AND patch = "@, ArgView::Text(x@))
            &&& f.layout matches Some(x) ==> binds_after(q, " AND layout = "@, ArgView::Text(x@))
            &&& f.category matches Some(x) ==> binds_after(q, " AND category = "@, ArgView::Text(x@))
            &&& f.before matches Some(t) ==> binds_after(q, " AND a.created_at <= "@, ArgView::Instant(t))
            &&& f.after matches Some(t) ==> binds_after(q, " AND a.created_at >= "@, ArgView::Instant(t))
            &&& q[q.len() - 3] == PartView::Sql(" LIMIT 50 OFFSET "@)
            &&& q[q.len() - 2] == PartView::Bind(ArgView::Int32(offset))
        }),
{
    let c = seq![
        seq![PartView::Sql(ACTIVITY_SELECT@)],
        event_condition(opt_text(f.event)),
        clause(" AND a.user_id = "@, int_arg(f.user)),
        clause(" AND patch = "@, text_arg(f.patch)),
        clause(" AND layout = "@, text_arg(f.layout)),
        clause(" AND category = "@, text_arg(f.category)),
        clause(" AND a.created_at <= "@, instant_arg(f.before)),
        clause(" AND a.created_at >= "@, instant_arg(f.after)),
        page_tail(activity_order_text(f.sort@, f.ascending), offset),
    ];
    let q = spec_activity_query(f, offset);
    assert(q =~= joined(c, 9)) by {
        reveal_with_fuel(joined, 10);
    }
    lemma_joined_binds(c, 2, " AND a.user_id = "@, int_arg(f.user));
    lemma_joined_binds(c, 3, " AND patch = "@, text_arg(f.patch));
    lemma_joined_binds(c, 4, " AND layout = "@, text_arg(f.layout));
    lemma_joined_binds(c, 5, " AND category = "@, text_arg(f.category));
    lemma_joined_binds(c, 6, " AND a.created_at <= "@, instant_arg(f.before));
    lemma_joined_binds(c, 7, " AND a.created_at >= "@, instant_arg(f.after));
}

/// The run list is ordered by section (patch, layout, category and map), by time, or by
/// date for any other sort key, each column in the asked direction.
pub proof fn lemma_runs_query_order(f: RunFilters, offset: i32)
    ensures
        ({
            let q = spec_runs_query(f, offset);
            let order = q[q.len() - 4];
            &&& q[q.len() - 5] == PartView::Sql(" ORDER BY "@)
            &&& f.sort@ == "section"@ && f.ascending ==> order == PartView::Sql(
                "patch ASC, layout ASC, category ASC, map ASC"@,
            )
            &&& f.sort@ == "section"@ && !f.ascending ==> order == PartView::Sql(
                "patch DESC, layout DESC, category DESC, map DESC"@,
            )
            &&& f.sort@ == "time"@ && f.ascending ==> order == PartView::Sql("time ASC"@)
            &&& f.sort@ == "time"@ && !f.ascending ==> order == PartView::Sql("time DESC"@)
            &&& f.sort@ != "section"@ && f.sort@ != "time"@ && f.ascending ==> order == PartView::Sql(
                "run.created_at ASC"@,
            )
            &&& f.sort@ != "section"@ && f.sort@ != "time"@ && !f.ascending ==> order == PartView::Sql(
                "run.created_at DESC"@,
            )
        }),
{
    reveal_strlit("section");
    reveal_strlit("time");
    assert("section"@ != "time"@) by {
        assert("section"@.len() != "time"@.len());
    }
    reveal_strlit("ASC");
    reveal_strlit("DESC");
    reveal_strlit("patch ");
    reveal_strlit(", layout ");
    reveal_strlit(", category ");
    reveal_strlit(", map ");
    reveal_strlit("time ");
    reveal_strlit("run.created_at ");
    reveal_strlit("patch ASC, layout ASC, category ASC, map ASC");
    reveal_strlit("patch DESC, layout DESC, category DESC, map DESC");
    reveal_strlit("time ASC");
    reveal_strlit("time DESC");
    reveal_strlit("run.created_at ASC");
    reveal_strlit("run.created_at DESC");
    assert("patch "@ + "ASC"@ + ", layout "@ + "ASC"@ + ", category "@ + "ASC"@ + ", map "@ + "ASC"@
        =~= "patch ASC, layout ASC, category ASC, map ASC"@);
    assert("patch "@ + "DESC"@ + ", layout "@ + "DESC"@ + ", category "@ + "DESC"@ + ", map "@ + "DESC"@
        =~= "patch DESC, layout DESC, category DESC, map DESC"@);
    assert("time "@ + "ASC"@ =~= "time ASC"@);
    assert("time "@ + "DESC"@ =~= "time DESC"@);
    assert("run.created_at "@ + "ASC"@ =~= "run.created_at ASC"@);
    assert("run.created_at "@ + "DESC"@ =~= "run.created_at DESC"@);
}

/// The activity feed is ordered by section (patch, layout and category) or by date for
/// any other sort key, each column in the asked direction.
pub proof fn lemma_activity_query_order(f: ActivityFilters, offset: i32)
    ensures
        ({
            let q = spec_activity_query(f, offset);
            let order = q[q.len() - 4];
            &&& q[q.len() - 5] == PartView::Sql(" ORDER BY "@)
            &&& f.sort@ == "section"@ && f.ascending ==> order == PartView::Sql(
                "patch  ASC, layout  ASC, category  ASC"@,
            )
            &&& f.sort@ == "section"@ && !f.ascending ==> order == PartView::Sql(
                "patch  DESC, layout  DESC, category  DESC"@,
            )
            &&& f.sort@ != "section"@ && f.ascending ==> order == PartView::Sql("a.created_at  ASC"@)
            &&& f.sort@ != "section"@ && !f.ascending ==> order == PartView::Sql("a.created_at  DESC"@)
        }),
{
    reveal_strlit(" ASC");
    reveal_strlit(" DESC");
    reveal_strlit("patch ");
    reveal_strlit(", layout ");
    reveal_strlit(", category ");
    reveal_strlit("a.created_at ");
    reveal_strlit("patch  ASC, layout  ASC, category  ASC");
    reveal_strlit("patch  DESC, layout  DESC, category  DESC");
    reveal_strlit("a.created_at  ASC");
    reveal_strlit("a.created_at  DESC");
    assert("patch "@ + " ASC"@ + ", layout "@ + " ASC"@ + ", category "@ + " ASC"@
        =~= "patch  ASC, layout  ASC, category  ASC"@);
    assert("patch "@ + " DESC"@ + ", layout "@ + " DESC"@ + ", category "@ + " DESC"@
        =~= "patch  DESC, layout  DESC, category  DESC"@);
    assert("a.created_at "@ + " ASC"@ =~= "a.created_at  ASC"@);
    assert("a.created_at "@ + " DESC"@ =~= "a.created_at  DESC"@);
}

/// A player's run list is ordered by layout, category and map for the `section` key, by
/// time for `time`, by date for any other key, in the asked direction.
pub proof fn lemma_user_runs_query_order(user_id: i64, f: RunFilters, offset: i32)
    ensures
        ({
            let q = spec_user_runs_query(user_id, f, offset);
            let n = q.len() as int;
            &&& q[n - 6] == PartView::Sql(" ORDER BY "@)
            &&& f.sort@ == "section"@ ==> q[n - 5] == PartView::Sql("layout, category, map"@)
            &&& f.sort@ == "time"@ ==> q[n - 5] == PartView::Sql("time"@)
            &&& f.sort@ != "section"@ && f.sort@ != "time"@ ==> q[n - 5] == PartView::Sql("run.created_at"@)
            &&& q[n - 4] == PartView::Sql(if f.ascending { " ASC"@ } else { " DESC"@ })
        }),
{
    reveal_strlit("section");
    reveal_strlit("time");
    assert("section"@ != "time"@) by {
        assert("section"@.len() != "time"@.len());
    }
}

/// The first `n` pieces of a query, joined in order.
pub open spec fn joined(c: Seq<Seq<PartView>>, n: int) -> Seq<PartView>
    decreases n,
{
    if n <= 0 {
        Seq::empty()
    } else {
        joined(c, n - 1) + c[n - 1]
    }
}

/// Where piece `k` of a query is a clause with a value, the whole query binds that value
/// after the clause's text.
proof fn lemma_joined_binds(c: Seq<Seq<PartView>>, k: int, text: Seq<char>, x: Option<ArgView>)
    requires
        0 <= k < c.len(),
        c[k] == clause(text, x),
    ensures
        x matches Some(v) ==> binds_after(joined(c, c.len() as int), text, v),
{
    if let Some(v) = x {
        lemma_clause_binds(joined(c, k), text, v);
        lemma_joined_grows(c, k + 1, c.len() as int, text, v);
    }
}

/// A joined prefix that binds a value goes on binding it as the prefix grows.
proof fn lemma_joined_grows(c: Seq<Seq<PartView>>, m: int, n: int, text: Seq<char>, x: ArgView)
    requires
        0 < m <= n <= c.len(),
        binds_after(joined(c, m), text, x),
    ensures
        binds_after(joined(c, n), text, x),
    decreases n - m,
{
    if m < n {
        lemma_binds_extend(joined(c, m), text, x, c[m]);
        lemma_joined_grows(c, m + 1, n, text, x);
    }
}

/// The start of a section update.
pub const SECTION_UPDATE: &'static str = "UPDATE section
        SET";

/// The update of a section: whether runs can be submitted to it, and the name of its map;
/// the second assignment is separated from the first by a comma.
pub open spec fn spec_section_update(id: i32, submittable: Option<bool>, name: Option<String>) -> Seq<PartView> {
    let sub = match submittable {
        Some(b) => clause(" submittable = "@, Some(ArgView::Bool(b))),
        None => Seq::empty(),
    };
    let map_prefix = if submittable is Some {
        ",  map = "@
    } else {
        " map = "@
    };
    seq![PartView::Sql(SECTION_UPDATE@)] + sub + clause(map_prefix, text_arg(name)) + seq![
        PartView::Sql(" WHERE id = "@),
        PartView::Bind(ArgView::Int32(id)),
    ]
}

/// The update of section `id`; without anything to change the input is invalid.
pub fn section_update_query(id: i32, submittable: Option<bool>, name: Option<String>) -> (r: Result<Vec<QueryPart>, ApiError>)
    ensures
        r is Err <==> (submittable is None && name is None),
        r is Err ==> r == Err::<Vec<QueryPart>, ApiError>(ApiError::InvalidInput),
        r matches Ok(q) ==> parts_view(q@) == spec_section_update(id, submittable, name),
{
    if submittable.is_none() && name.is_none() {
        return Err(ApiError::InvalidInput);
    }
    let mut q: Vec<QueryPart> = Vec::new();
    push_sql(&mut q, SECTION_UPDATE);
    assert(parts_view(q@) =~= seq![PartView::Sql(SECTION_UPDATE@)]);
    match submittable {
        Some(b) => push_clause(&mut q, " submittable = ", Some(SqlArg::Bool(b))),
        None => {},
    }
    let prefix = if submittable.is_some() {
        ",  map = "
    } else {
        " map = "
    };
    push_clause(&mut q, prefix, match name { Some(n) => Some(SqlArg::Text(n)), None => None });
    push_sql(&mut q, " WHERE id = ");
    push_bind(&mut q, SqlArg::Int32(id));
    proof {
        assert(parts_view(q@) =~= spec_section_update(id, submittable, name));
    }
    Ok(q)
}

/// The local date and minute that a date-time form field holds (`%Y-%m-%dT%H:%M`), as
/// seconds since the epoch read as if it were UTC.
pub uninterp spec fn form_datetime(text: Seq<char>) -> Option<i64>;

/// Parses a date-time form field (`NaiveDateTime::parse_from_str` with `%Y-%m-%dT%H:%M`).
#[verifier::external_body]
fn parse_form_datetime(text: &str) -> (r: Option<i64>)
    ensures
        r == form_datetime(text@),
{
    chrono::NaiveDateTime::parse_from_str(text, "%Y-%m-%dT%H:%M").ok().map(|d| d.and_utc().timestamp())
}

/// An instant at which a local clock shows the date and time `naive_secs` (read as if
/// UTC): a whole second, less than a day from it, since every offset is.
pub open spec fn local_reading(t: Timestamp, naive_secs: i64) -> bool {
    t.nanos == 0 && naive_secs - 86400 < t.secs < naive_secs + 86400
}

/// The instants that one local date and time maps to on the machine's clock, as chrono
/// gives them: `earliest` is what `MappedLocalTime::earliest` returns and `latest` what
/// `MappedLocalTime::latest` returns; the two are the same instant where the local time
/// is not ambiguous.
#[derive(Clone, Copy, Debug, PartialEq, Eq)]
pub struct LocalReadings {
    pub earliest: Timestamp,
    pub latest: Timestamp,
}

/// Both readings are instants at which a local clock shows `naive_secs`.
pub open spec fn readings_ok(naive_secs: i64, rd: LocalReadings) -> bool {
    &&& rd.earliest.wf()
    &&& rd.latest.wf()
    &&& local_reading(rd.earliest, naive_secs)
    &&& local_reading(rd.latest, naive_secs)
}

/// Both readings, where there are any, are well formed instants.
pub open spec fn readings_wf(rd: Option<LocalReadings>) -> bool {
    rd matches Some(x) ==> x.earliest.wf() && x.latest.wf()
}

/// The `latest` reading, where there is one.
pub open spec fn latest_of(rd: Option<LocalReadings>) -> Option<Timestamp> {
    match rd {
        Some(x) => Some(x.latest),
        None => None,
    }
}

/// The `earliest` reading, where there is one.
pub open spec fn earliest_of(rd: Option<LocalReadings>) -> Option<Timestamp> {
    match rd {
        Some(x) => Some(x.earliest),
        None => None,
    }
}

/// The instants at which the machine's local clock shows a date and time (given as
/// seconds read as if UTC), from one `TimeZone::from_local_datetime` call on `Local`:
/// what its `earliest()` and its `latest()` return. Whether there are any (a time skipped
/// by a clock change has none) and which instants they are depends on the machine's time
/// zone, so that is not said, nor is their order in time (chrono documents the first as
/// the earlier, while its Unix time zone code lists the two offsets of a fold smallest
/// first). What is said holds in every zone: each is a whole second that differs from
/// the reading by less than a day (chrono's offsets are below 24 hours).
#[verifier::external_body]
fn local_readings(naive_secs: i64) -> (r: Option<LocalReadings>)
    ensures
        r matches Some(rd) ==> readings_ok(naive_secs, rd),
{
    let naive = chrono::DateTime::from_timestamp(naive_secs, 0)?.naive_utc();
    let local = chrono::Local.from_local_datetime(&naive);
    let (e, l) = (local.earliest()?, local.latest()?);
    Some(LocalReadings {
        earliest: Timestamp { secs: e.timestamp(), nanos: e.timestamp_subsec_nanos() },
        latest: Timestamp { secs: l.timestamp(), nanos: l.timestamp_subsec_nanos() },
    })
}

/// What holds of the readings of a date-time query parameter whatever the machine's time
/// zone: none where the parameter is missing or its first 16 characters do not parse as a
/// date and minute; where they parse, readings of that local date and minute, if any.
pub open spec fn param_readings_ok(param: Option<String>, rd: Option<LocalReadings>) -> bool {
    match param_datetime(param) {
        Some(n) => rd matches Some(x) ==> readings_ok(n, x),
        None => rd is None,
    }
}

/// The local readings of a date-time query parameter.
fn param_readings(param: &Option<String>) -> (r: Option<LocalReadings>)
    ensures
        param_readings_ok(*param, r),
        readings_wf(r),
{
    match param {
        Some(p) => {
            let head = take_chars(p.as_str(), 16);
            match parse_form_datetime(head.as_str()) {
                Some(secs) => local_readings(secs),
                None => None,
            }
        },
        None => None,
    }
}

/// The `latest` reading: the bound a "before" filter takes.
fn pick_latest(rd: Option<LocalReadings>) -> (r: Option<Timestamp>)
    ensures
        r == latest_of(rd),
{
    match rd {
        Some(x) => Some(x.latest),
        None => None,
    }
}

/// The `earliest` reading: the bound an "after" filter takes.
fn pick_earliest(rd: Option<LocalReadings>) -> (r: Option<Timestamp>)
    ensures
        r == earliest_of(rd),
{
    match rd {
        Some(x) => Some(x.earliest),
        None => None,
    }
}

/// The date and minute a date-time query parameter holds in its first 16 characters.
pub open spec fn param_datetime(param: Option<String>) -> Option<i64> {
    match param {
        Some(p) => form_datetime(prefix_chars(p@, 16)),
        None => None,
    }
}

/// A number query parameter.
pub open spec fn param_number(param: Option<String>) -> Option<i64> {
    match param {
        Some(p) => spec_parse_i64(p@),
        None => None,
    }
}

/// A decimal query parameter.
pub open spec fn param_time(param: Option<String>) -> Option<(i128, u32)> {
    match param {
        Some(p) => decimal_parse(p@),
        None => None,
    }
}

/// The time of a decimal query parameter.
pub open spec fn time_of(parsed: Option<(i128, u32)>) -> Option<RunTime> {
    match parsed {
        Some((m, s)) => Some(RunTime { mantissa: m, scale: s }),
        None => None,
    }
}

/// The sort key of a list page: the `sort` parameter, or `date` where it is missing or empty.
pub open spec fn param_sort(param: Option<String>) -> Seq<char> {
    match non_empty(param) {
        Some(s) => s,
        None => "date"@,
    }
}

/// The direction of a list page: ascending only where the `order` parameter is present,
/// not empty and not `desc`.
pub open spec fn param_ascending(param: Option<String>) -> bool {
    match non_empty(param) {
        Some(s) => s != "desc"@,
        None => false,
    }
}

fn number_param(param: &Option<String>) -> (r: Option<i64>)
    ensures
        r == param_number(*param),
{
    match param {
        Some(p) => parse_i64(p.as_str()),
        None => None,
    }
}

fn time_param(param: &Option<String>) -> (r: Option<RunTime>)
    ensures
        r == time_of(param_time(*param)),
        r matches Some(t) ==> t.wf(),
{
    match param {
        Some(p) => parse_time(p.as_str()),
        None => None,
    }
}

fn sort_param(param: &Option<String>) -> (r: String)
    ensures
        r@ == param_sort(*param),
{
    match non_empty_param(param) {
        Some(s) => s,
        None => String::from_str("date"),
    }
}

fn ascending_param(param: &Option<String>) -> (r: bool)
    ensures
        r == param_ascending(*param),
{
    match non_empty_param(param) {
        Some(s) => !str_eq(s.as_str(), "desc"),
        None => false,
    }
}

/// The query parameters of a run list page, each as found in the URL.
#[derive(Clone, Debug, Default)]
pub struct RunParams {
    pub user: Option<String>,
    pub patch: Option<String>,
    pub layout: Option<String>,
    pub category: Option<String>,
    pub map: Option<String>,
    pub faster: Option<String>,
    pub slower: Option<String>,
    pub before: Option<String>,
    pub after: Option<String>,
    pub sort: Option<String>,
    pub order: Option<String>,
}

/// The filters that the parameters of a run list page ask for, given the local readings of
/// its `before` and `after` parameters: text fields where they are not empty, numbers and
/// decimals where they parse, the `before` bound the `latest` and the `after` bound the
/// `earliest` reading.
pub open spec fn run_filters_match(
    p: RunParams,
    f: RunFilters,
    before: Option<LocalReadings>,
    after: Option<LocalReadings>,
) -> bool {
    &&& f.user == param_number(p.user)
    &&& opt_text(f.patch) == non_empty(p.patch)
    &&& opt_text(f.layout) == non_empty(p.layout)
    &&& opt_text(f.category) == non_empty(p.category)
    &&& opt_text(f.map) == non_empty(p.map)
    &&& f.faster == time_of(param_time(p.faster))
    &&& f.slower == time_of(param_time(p.slower))
    &&& f.before == latest_of(before)
    &&& f.after == earliest_of(after)
    &&& f.sort@ == param_sort(p.sort)
    &&& f.ascending == param_ascending(p.order)
}

/// All bounds of a filter are well formed.
pub open spec fn run_filters_wf(f: RunFilters) -> bool {
    &&& (f.faster matches Some(t) ==> t.wf())
    &&& (f.slower matches Some(t) ==> t.wf())
    &&& (f.before matches Some(t) ==> t.wf())
    &&& (f.after matches Some(t) ==> t.wf())
}

/// The filters of the run administration page, given its query parameters and the local
/// readings of its `before` and `after` parameters.
pub fn run_filters_from_readings(
    p: &RunParams,
    before: Option<LocalReadings>,
    after: Option<LocalReadings>,
) -> (r: RunFilters)
    requires
        readings_wf(before),
        readings_wf(after),
    ensures
        run_filters_match(*p, r, before, after),
        run_filters_wf(r),
{
    RunFilters {
        user: number_param(&p.user),
        patch: non_empty_param(&p.patch),
        layout: non_empty_param(&p.layout),
        category: non_empty_param(&p.category),
        map: non_empty_param(&p.map),
        faster: time_param(&p.faster),
        slower: time_param(&p.slower),
        before: pick_latest(before),
        after: pick_earliest(after),
        sort: sort_param(&p.sort),
        ascending: ascending_param(&p.order),
    }
}

/// The filters of the run administration page, read from its query parameters; the date
/// bounds are read on the machine's local clock.
pub fn run_filters_from_params(p: &RunParams) -> (r: RunFilters)
    ensures
        exists|b: Option<LocalReadings>, a: Option<LocalReadings>|
            #![trigger run_filters_match(*p, r, b, a)]
            param_readings_ok(p.before, b) && param_readings_ok(p.after, a) && run_filters_match(*p, r, b, a),
        run_filters_wf(r),
{
    let before = param_readings(&p.before);
    let after = param_readings(&p.after);
    run_filters_from_readings(p, before, after)
}

/// The filters of a player's own run page: the current patch, and the player left for
/// the caller to fill in; the other fields as on the administration page.
pub fn own_run_filters_from_params(p: &RunParams) -> (r: RunFilters)
    ensures
        r.user is None,
        r.patch matches Some(x) && x@ == "2.13"@,
        exists|b: Option<LocalReadings>, a: Option<LocalReadings>|
            #![trigger run_filters_match(RunParams { user: None, patch: r.patch, ..*p }, r, b, a)]
            param_readings_ok(p.before, b) && param_readings_ok(p.after, a)
                && run_filters_match(RunParams { user: None, patch: r.patch, ..*p }, r, b, a),
        run_filters_wf(r),
{
    proof {
        reveal_strlit("2.13");
    }
    let before = param_readings(&p.before);
    let after = param_readings(&p.after);
    let r = RunFilters {
        user: None,
        patch: Some(String::from_str("2.13")),
        layout: non_empty_param(&p.layout),
        category: non_empty_param(&p.category),
        map: non_empty_param(&p.map),
        faster: time_param(&p.faster),
        slower: time_param(&p.slower),
        before: pick_latest(before),
        after: pick_earliest(after),
        sort: sort_param(&p.sort),
        ascending: ascending_param(&p.order),
    };
    assert(run_filters_match(RunParams { user: None, patch: r.patch, ..*p }, r, before, after));
    r
}

/// The filters of the signed-in player's own run page: that player's runs of the current
/// patch, whatever the parameters say of player and patch; the other fields as on the
/// administration page.
pub fn own_run_filters(p: &RunParams, user_id: i64) -> (r: RunFilters)
    ensures
        r.user == Some(user_id),
        r.patch matches Some(x) && x@ == "2.13"@,
        exists|b: Option<LocalReadings>, a: Option<LocalReadings>|
            #![trigger run_filters_match(RunParams { user: None, patch: r.patch, ..*p }, RunFilters { user: None, ..r }, b, a)]
            param_readings_ok(p.before, b) && param_readings_ok(p.after, a)
                && run_filters_match(RunParams { user: None, patch: r.patch, ..*p }, RunFilters { user: None, ..r }, b, a),
        run_filters_wf(r),
{
    let f = own_run_filters_from_params(p);
    let r = RunFilters { user: Some(user_id), ..f };
    assert(RunFilters { user: None, ..r } == f);
    r
}

/// The query parameters of the activity page, each as found in the URL.
#[derive(Clone, Debug, Default)]
pub struct ActivityParams {
    pub event: Option<String>,
    pub user: Option<String>,
    pub patch: Option<String>,
    pub layout: Option<String>,
    pub category: Option<String>,
    pub before: Option<String>,
    pub after: Option<String>,
    pub sort: Option<String>,
    pub order: Option<String>,
}

/// The activity filters that the parameters ask for, given the local readings of the
/// `before` and `after` parameters, read as for the run list.
pub open spec fn activity_filters_match(
    p: ActivityParams,
    f: ActivityFilters,
    before: Option<LocalReadings>,
    after: Option<LocalReadings>,
) -> bool {
    &&& opt_text(f.event) == non_empty(p.event)
    &&& f.user == param_number(p.user)
    &&& opt_text(f.patch) == non_empty(p.patch)
    &&& opt_text(f.layout) == non_empty(p.layout)
    &&& opt_text(f.category) == non_empty(p.category)
    &&& f.before == latest_of(before)
    &&& f.after == earliest_of(after)
    &&& f.sort@ == param_sort(p.sort)
    &&& f.ascending == param_ascending(p.order)
}

/// The filters of the activity page, given its query parameters and the local readings
/// of its `before` and `after` parameters.
pub fn activity_filters_from_readings(
    p: &ActivityParams,
    before: Option<LocalReadings>,
    after: Option<LocalReadings>,
) -> (r: ActivityFilters)
    requires
        readings_wf(before),
        readings_wf(after),
    ensures
        activity_filters_match(*p, r, before, after),
        r.before matches Some(t) ==> t.wf(),
        r.after matches Some(t) ==> t.wf(),
{
    ActivityFilters {
        event: non_empty_param(&p.event),
        user: number_param(&p.user),
        patch: non_empty_param(&p.patch),
        layout: non_empty_param(&p.layout),
        category: non_empty_param(&p.category),
        before: pick_latest(before),
        after: pick_earliest(after),
        sort: sort_param(&p.sort),
        ascending: ascending_param(&p.order),
    }
}

/// The filters of the activity page, read from its query parameters; the date bounds are
/// read on the machine's local clock.
pub fn activity_filters_from_params(p: &ActivityParams) -> (r: ActivityFilters)
    ensures
        exists|b: Option<LocalReadings>, a: Option<LocalReadings>|
            #![trigger activity_filters_match(*p, r, b, a)]
            param_readings_ok(p.before, b) && param_readings_ok(p.after, a) && activity_filters_match(*p, r, b, a),
        r.before matches Some(t) ==> t.wf(),
        r.after matches Some(t) ==> t.wf(),
{
    let before = param_readings(&p.before);
    let after = param_readings(&p.after);
    activity_filters_from_readings(p, before, after)
}

} // verus!
