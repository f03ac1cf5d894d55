//! What a leaderboard entry lists: the runs of a section, narrowed to a player,
//! filtered (personal bests, records, verified runs, ...), sorted and numbered.
use crate::text::{opt_text, parse_i64, spec_parse_i64, str_eq};
use crate::time::{ceiling_value, instant_lt, time_eq, time_lt, RunTime};
use crate::types::PartialRun;
use std::collections::HashMap;
use vstd::prelude::*;

verus! {

broadcast use vstd::std_specs::hash::group_hash_axioms;

/// Which runs a leaderboard entry keeps.
#[derive(Clone, Copy, Debug, PartialEq, Eq)]
pub enum RunFilter {
    /// Verified runs.
    Verified,
    /// Runs that beat every earlier run of the same player.
    WasPb,
    /// Runs that are a player's current personal best.
    IsPb,
    /// Runs that beat every earlier run.
    WasWr,
    /// The current world record.
    IsWr,
    /// Every run.
    All,
}

/// The filter that a `filter` query value selects; without one, personal bests.
pub open spec fn spec_run_filter(key: Option<Seq<char>>) -> RunFilter {
    match key {
        None => RunFilter::IsPb,
        Some(k) => if k == "verified"@ {
            RunFilter::Verified
        } else if k == "was_pb"@ {
            RunFilter::WasPb
        } else if k == "is_pb"@ {
            RunFilter::IsPb
        } else if k == "was_wr"@ {
            RunFilter::WasWr
        } else if k == "is_wr"@ {
            RunFilter::IsWr
        } else {
            RunFilter::All
        },
    }
}

/// The filter that a `filter` query value selects.
pub fn run_filter(key: &Option<String>) -> (r: RunFilter)
    ensures
        r == spec_run_filter(opt_text(*key)),
{
    match key {
        None => RunFilter::IsPb,
        Some(k) => {
            let k = k.as_str();
            if str_eq(k, "verified") {
                RunFilter::Verified
            } else if str_eq(k, "was_pb") {
                RunFilter::WasPb
            } else if str_eq(k, "is_pb") {
                RunFilter::IsPb
            } else if str_eq(k, "was_wr") {
                RunFilter::WasWr
            } else if str_eq(k, "is_wr") {
                RunFilter::IsWr
            } else {
                RunFilter::All
            }
        },
    }
}

/// The best time stored for a player, or the ceiling where none is stored.
pub open spec fn stored_best(bests: Map<i64, RunTime>, user: i64) -> int {
    if bests.contains_key(user) {
        bests[user].value()
    } else {
        ceiling_value()
    }
}

/// Every stored time is well formed.
pub open spec fn bests_wf(bests: Map<i64, RunTime>) -> bool {
    forall|u: i64| #[trigger] bests.contains_key(u) ==> bests[u].wf()
}

/// One step of the filter: whether `r` is kept, and how the running record `t` and the
/// running personal bests `ts` change.
pub open spec fn filter_step_ok(
    r: PartialRun,
    mode: RunFilter,
    t: RunTime,
    ts: Map<i64, RunTime>,
    keep: bool,
    t2: RunTime,
    ts2: Map<i64, RunTime>,
) -> bool {
    match mode {
        RunFilter::WasPb => {
            &&& keep == (r.time.value() < stored_best(ts, r.user.user_id))
            &&& t2 == t
            &&& ts2 == if keep {
                ts.insert(r.user.user_id, r.time)
            } else {
                ts
            }
        },
        RunFilter::WasWr => {
            &&& keep == (r.time.value() < t.value())
            &&& t2 == if keep {
                r.time
            } else {
                t
            }
            &&& ts2 == ts
        },
        _ => {
            &&& keep == match mode {
                RunFilter::Verified => r.verified,
                RunFilter::IsPb => r.is_pb,
                RunFilter::IsWr => r.is_wr,
                _ => true,
            }
            &&& t2 == t
            &&& ts2 == ts
        },
    }
}

/// Whether a run passes the filter named by `f`, given the best time seen so far `t`
/// and the best time seen so far of each player `ts`; both are updated by a kept run.
pub fn filter(r: &PartialRun, f: Option<String>, t: &mut RunTime, ts: &mut HashMap<i64, RunTime>) -> (keep: bool)
    requires
        r.wf(),
        old(t).wf(),
        bests_wf(old(ts)@),
    ensures
        final(t).wf(),
        bests_wf(final(ts)@),
        filter_step_ok(*r, spec_run_filter(opt_text(f)), *old(t), old(ts)@, keep, *final(t), final(ts)@),
{
    let mode = run_filter(&f);
    filter_step(r, mode, t, ts)
}

/// [`filter`] with the filter already chosen.
fn filter_step(r: &PartialRun, mode: RunFilter, t: &mut RunTime, ts: &mut HashMap<i64, RunTime>) -> (keep: bool)
    requires
        r.wf(),
        old(t).wf(),
        bests_wf(old(ts)@),
    ensures
        final(t).wf(),
        bests_wf(final(ts)@),
        filter_step_ok(*r, mode, *old(t), old(ts)@, keep, *final(t), final(ts)@),
{
    match mode {
        RunFilter::Verified => r.verified,
        RunFilter::WasPb => {
            let ceiling = RunTime::ceiling();
            let best = match ts.get(&r.user.user_id) {
                Some(b) => *b,
                None => ceiling,
            };
            if time_lt(&r.time, &best) {
                ts.insert(r.user.user_id, r.time);
                true
            } else {
                false
            }
        },
        RunFilter::IsPb => r.is_pb,
        RunFilter::WasWr => {
            if time_lt(&r.time, t) {
                *t = r.time;
                true
            } else {
                false
            }
        },
        RunFilter::IsWr => r.is_wr,
        RunFilter::All => true,
    }
}

/// Run `i` is faster than the ceiling and than every earlier run.
pub open spec fn beats_all_before(runs: Seq<PartialRun>, i: int) -> bool {
    &&& runs[i].time.value() < ceiling_value()
    &&& forall|j: int| 0 <= j < i ==> runs[i].time.value() < #[trigger] runs[j].time.value()
}

/// Run `i` is faster than the ceiling and than every earlier run of the same player.
pub open spec fn beats_own_before(runs: Seq<PartialRun>, i: int) -> bool {
    &&& runs[i].time.value() < ceiling_value()
    &&& forall|j: int|
        #![trigger runs[j]]
        0 <= j < i && runs[j].user.user_id == runs[i].user.user_id ==> runs[i].time.value()
            < runs[j].time.value()
}

/// Whether the filter keeps run `i` of `runs` (which are in the order they were set).
pub open spec fn keeps(runs: Seq<PartialRun>, mode: RunFilter, i: int) -> bool {
    match mode {
        RunFilter::Verified => runs[i].verified,
        RunFilter::WasPb => beats_own_before(runs, i),
        RunFilter::IsPb => runs[i].is_pb,
        RunFilter::WasWr => beats_all_before(runs, i),
        RunFilter::IsWr => runs[i].is_wr,
        RunFilter::All => true,
    }
}

/// The runs among the first `n` that the filter keeps, in their order.
pub open spec fn kept(runs: Seq<PartialRun>, mode: RunFilter, n: int) -> Seq<PartialRun>
    decreases n,
{
    if n <= 0 {
        Seq::empty()
    } else if keeps(runs, mode, n - 1) {
        kept(runs, mode, n - 1).push(runs[n - 1])
    } else {
        kept(runs, mode, n - 1)
    }
}

/// The best of the ceiling and the first `n` times.
pub open spec fn prefix_best(runs: Seq<PartialRun>, n: int) -> int
    decreases n,
{
    if n <= 0 {
        ceiling_value()
    } else {
        let b = prefix_best(runs, n - 1);
        let v = runs[n - 1].time.value();
        if v < b {
            v
        } else {
            b
        }
    }
}

/// The best of the ceiling and the first `n` times of player `u`.
pub open spec fn player_prefix_best(runs: Seq<PartialRun>, n: int, u: i64) -> int
    decreases n,
{
    if n <= 0 {
        ceiling_value()
    } else {
        let b = player_prefix_best(runs, n - 1, u);
        let v = runs[n - 1].time.value();
        if runs[n - 1].user.user_id == u && v < b {
            v
        } else {
            b
        }
    }
}

proof fn lemma_prefix_best(runs: Seq<PartialRun>, n: int)
    requires
        0 <= n <= runs.len(),
    ensures
        prefix_best(runs, n) <= ceiling_value(),
        forall|j: int| 0 <= j < n ==> prefix_best(runs, n) <= #[trigger] runs[j].time.value(),
        prefix_best(runs, n) == ceiling_value() || exists|j: int|
            0 <= j < n && prefix_best(runs, n) == #[trigger] runs[j].time.value(),
    decreases n,
{
    if n > 0 {
        lemma_prefix_best(runs, n - 1);
    }
}

proof fn lemma_player_prefix_best(runs: Seq<PartialRun>, n: int, u: i64)
    requires
        0 <= n <= runs.len(),
    ensures
        player_prefix_best(runs, n, u) <= ceiling_value(),
        forall|j: int|
            0 <= j < n && #[trigger] runs[j].user.user_id == u ==> player_prefix_best(runs, n, u)
                <= runs[j].time.value(),
        player_prefix_best(runs, n, u) == ceiling_value() || exists|j: int|
            0 <= j < n && #[trigger] runs[j].user.user_id == u && player_prefix_best(runs, n, u)
                == runs[j].time.value(),
    decreases n,
{
    if n > 0 {
        lemma_player_prefix_best(runs, n - 1, u);
    }
}

/// Beating the running record is beating the ceiling and every earlier run.
proof fn lemma_beats_prefix_best(runs: Seq<PartialRun>, i: int)
    requires
        0 <= i < runs.len(),
    ensures
        (runs[i].time.value() < prefix_best(runs, i)) == beats_all_before(runs, i),
{
    lemma_prefix_best(runs, i);
}

/// Beating a player's running best is beating the ceiling and their every earlier run.
proof fn lemma_beats_player_prefix_best(runs: Seq<PartialRun>, i: int)
    requires
        0 <= i < runs.len(),
    ensures
        (runs[i].time.value() < player_prefix_best(runs, i, runs[i].user.user_id))
            == beats_own_before(runs, i),
{
    lemma_player_prefix_best(runs, i, runs[i].user.user_id);
}

/// The runs among the first `n` that belong to player `key`, or all of them without a key.
pub open spec fn of_player(runs: Seq<PartialRun>, key: Option<i64>, n: int) -> Seq<PartialRun>
    decreases n,
{
    if n <= 0 {
        Seq::empty()
    } else {
        let prev = of_player(runs, key, n - 1);
        match key {
            Some(k) => if runs[n - 1].user.user_id == k {
                prev.push(runs[n - 1])
            } else {
                prev
            },
            None => prev.push(runs[n - 1]),
        }
    }
}

/// The player a `user` route parameter selects: its number, or `-1` (no one) where it
/// is not a number.
pub open spec fn spec_player_key(user: Option<Seq<char>>) -> Option<i64> {
    match user {
        None => None,
        Some(s) => Some(
            match spec_parse_i64(s) {
                Some(v) => v,
                None => -1i64,
            },
        ),
    }
}

/// All runs are well formed.
pub open spec fn runs_wf(runs: Seq<PartialRun>) -> bool {
    forall|i: int| 0 <= i < runs.len() ==> #[trigger] runs[i].wf()
}

/// The runs of player `key` (all runs without a key), in their order.
pub fn select_player(runs: &Vec<PartialRun>, key: Option<i64>) -> (r: Vec<PartialRun>)
    requires
        runs_wf(runs@),
    ensures
        r@ == of_player(runs@, key, runs@.len() as int),
        runs_wf(r@),
{
    let mut out: Vec<PartialRun> = Vec::new();
    let mut i: usize = 0;
    while i < runs.len()
        invariant
            i <= runs@.len(),
            runs_wf(runs@),
            out@ == of_player(runs@, key, i as int),
            runs_wf(out@),
        decreases runs@.len() - i,
    {
        let take = match key {
            Some(k) => runs[i].user.user_id == k,
            None => true,
        };
        if take {
            out.push(runs[i].clone());
        }
        i = i + 1;
    }
    out
}

/// The runs that a filter keeps, in their order; the running bests start from the
/// ceiling.
pub fn filter_runs(runs: &Vec<PartialRun>, mode: RunFilter) -> (r: Vec<PartialRun>)
    requires
        runs_wf(runs@),
    ensures
        r@ == kept(runs@, mode, runs@.len() as int),
        runs_wf(r@),
{
    let mut out: Vec<PartialRun> = Vec::new();
    let mut best = RunTime::ceiling();
    let mut bests: HashMap<i64, RunTime> = HashMap::new();
    let mut i: usize = 0;
    while i < runs.len()
        invariant
            i <= runs@.len(),
            runs_wf(runs@),
            out@ == kept(runs@, mode, i as int),
            runs_wf(out@),
            best.wf(),
            bests_wf(bests@),
            mode == RunFilter::WasWr ==> best.value() == prefix_best(runs@, i as int),
            mode == RunFilter::WasPb ==> forall|u: i64|
                stored_best(bests@, u) == #[trigger] player_prefix_best(runs@, i as int, u),
        decreases runs@.len() - i,
    {
        let ghost old_bests = bests@;
        let keep = filter_step(&runs[i], mode, &mut best, &mut bests);
        proof {
            let rs = runs@;
            let ii = i as int;
            if mode == RunFilter::WasWr {
                lemma_beats_prefix_best(rs, ii);
            }
            if mode == RunFilter::WasPb {
                lemma_beats_player_prefix_best(rs, ii);
                assert forall|u: i64|
                    stored_best(bests@, u) == #[trigger] player_prefix_best(rs, ii + 1, u) by {
                    assert(stored_best(old_bests, u) == player_prefix_best(rs, ii, u));
                }
            }
            assert(keep == keeps(rs, mode, ii));
        }
        if keep {
            out.push(runs[i].clone());
        }
        i = i + 1;
    }
    out
}

/// The order of a leaderboard entry.
#[derive(Clone, Copy, Debug, PartialEq, Eq)]
pub enum SortOrder {
    /// Newest first.
    Date,
    /// Fastest first; of equal times, the older first.
    TimeThenDate,
    /// Fastest first.
    Time,
    /// Oldest first (the order of a progress chart).
    Oldest,
}

/// The order that a `sort` query value selects: `date` is newest first, any other
/// value fastest first with older runs ahead on equal times, and no value fastest first.
pub open spec fn spec_sort(key: Option<Seq<char>>) -> SortOrder {
    match key {
        None => SortOrder::Time,
        Some(k) => if k == "date"@ {
            SortOrder::Date
        } else {
            SortOrder::TimeThenDate
        },
    }
}

/// The order that a `sort` query value selects.
pub fn sort(key: Option<String>) -> (r: SortOrder)
    ensures
        r == spec_sort(opt_text(key)),
{
    match key {
        None => SortOrder::Time,
        Some(k) => if str_eq(k.as_str(), "date") {
            SortOrder::Date
        } else {
            SortOrder::TimeThenDate
        },
    }
}

/// Run `a` must be listed before run `b`.
pub open spec fn precedes(order: SortOrder, a: PartialRun, b: PartialRun) -> bool {
    match order {
        SortOrder::Date => a.created_at.value() > b.created_at.value(),
        SortOrder::TimeThenDate => if a.time.value() == b.time.value() {
            a.created_at.value() < b.created_at.value()
        } else {
            a.time.value() < b.time.value()
        },
        SortOrder::Time => a.time.value() < b.time.value(),
        SortOrder::Oldest => a.created_at.value() < b.created_at.value(),
    }
}

/// No run is listed after a run that it must precede.
pub open spec fn sorted_by(order: SortOrder, runs: Seq<PartialRun>) -> bool {
    forall|i: int, j: int|
        0 <= i < j < runs.len() ==> !precedes(order, #[trigger] runs[j], #[trigger] runs[i])
}

/// The precedence of an order is a strict order.
pub proof fn lemma_precedes_strict(order: SortOrder, a: PartialRun, b: PartialRun, c: PartialRun)
    ensures
        !precedes(order, a, a),
        precedes(order, a, b) ==> !precedes(order, b, a),
        precedes(order, a, b) && precedes(order, b, c) ==> precedes(order, a, c),
{
}

impl SortOrder {
    /// Whether run `a` must be listed before run `b`.
    pub fn before(&self, a: &PartialRun, b: &PartialRun) -> (r: bool)
        requires
            a.wf(),
            b.wf(),
        ensures
            r == precedes(*self, *a, *b),
    {
        match self {
            SortOrder::Date => instant_lt(&b.created_at, &a.created_at),
            SortOrder::TimeThenDate => if time_eq(&a.time, &b.time) {
                instant_lt(&a.created_at, &b.created_at)
            } else {
                time_lt(&a.time, &b.time)
            },
            SortOrder::Time => time_lt(&a.time, &b.time),
            SortOrder::Oldest => instant_lt(&a.created_at, &b.created_at),
        }
    }
}

/// `r` lists the runs at positions `idx` of `runs`, each position once, and of two runs
/// that neither must precede, the earlier in `runs` comes first.
pub open spec fn stable_pick(order: SortOrder, runs: Seq<PartialRun>, r: Seq<PartialRun>, idx: Seq<int>) -> bool {
    &&& idx.len() == r.len()
    &&& forall|k: int| 0 <= k < idx.len() ==> 0 <= #[trigger] idx[k] < runs.len() && r[k] == runs[idx[k]]
    &&& forall|a: int, b: int| 0 <= a < b < idx.len() ==> #[trigger] idx[a] != #[trigger] idx[b]
    &&& forall|a: int, b: int|
        0 <= a < b < r.len() && !precedes(order, r[b], r[a]) && !precedes(order, r[a], r[b]) ==> #[trigger] idx[a]
            < #[trigger] idx[b]
}

/// Sorts runs by an order: the same runs, none listed after a run it must precede, and
/// runs that neither must precede kept in their order.
pub fn sort_runs(order: SortOrder, runs: Vec<PartialRun>) -> (r: Vec<PartialRun>)
    requires
        runs_wf(runs@),
    ensures
        r@.to_multiset() == runs@.to_multiset(),
        sorted_by(order, r@),
        runs_wf(r@),
        exists|idx: Seq<int>| #[trigger] stable_pick(order, runs@, r@, idx),
{
    broadcast use vstd::seq_lib::group_to_multiset_ensures;

    let mut out: Vec<PartialRun> = Vec::new();
    let ghost mut idx: Seq<int> = Seq::empty();
    let mut i: usize = 0;
    while i < runs.len()
        invariant
            i <= runs@.len(),
            runs_wf(runs@),
            runs_wf(out@),
            out@.to_multiset() == runs@.take(i as int).to_multiset(),
            sorted_by(order, out@),
            stable_pick(order, runs@, out@, idx),
            forall|k: int| 0 <= k < idx.len() ==> #[trigger] idx[k] < i,
        decreases runs@.len() - i,
    {
        let x = runs[i].clone();
        let mut p: usize = 0;
        while p < out.len() && !order.before(&x, &out[p])
            invariant
                p <= out@.len(),
                x.wf(),
                runs_wf(out@),
                forall|k: int| 0 <= k < p ==> !precedes(order, x, #[trigger] out@[k]),
            decreases out@.len() - p,
        {
            p = p + 1;
        }
        let ghost prev = out@;
        let ghost prev_idx = idx;
        proof {
            assert forall|k: int| p <= k < prev.len() implies !precedes(order, #[trigger] prev[k], x) by {
                lemma_precedes_strict(order, prev[k], x, prev[p as int]);
                lemma_precedes_strict(order, x, prev[p as int], prev[k]);
            }
            assert forall|k: int| p <= k < prev.len() implies precedes(order, x, #[trigger] prev[k]) by {
                lemma_precedes_strict(order, x, prev[p as int], prev[k]);
                if !precedes(order, x, prev[k]) {
                    assert(!precedes(order, prev[k], prev[p as int]));
                }
            }
            assert(runs@.take(i + 1) =~= runs@.take(i as int).push(x));
            vstd::seq_lib::to_multiset_insert(prev, p as int, x);
            vstd::seq_lib::to_multiset_build(runs@.take(i as int), x);
        }
        out.insert(p, x);
        proof {
            idx = prev_idx.insert(p as int, i as int);
            lemma_insert_keeps_order(order, runs@, prev, prev_idx, p as int, i as int, x);
        }
        i = i + 1;
    }
    proof {
        assert(runs@.take(runs@.len() as int) =~= runs@);
    }
    out
}

/// Inserting run `i` at `p`, after the runs it need not precede and before those it
/// must precede, keeps the list sorted and the pick stable.
proof fn lemma_insert_keeps_order(
    order: SortOrder,
    runs: Seq<PartialRun>,
    prev: Seq<PartialRun>,
    prev_idx: Seq<int>,
    p: int,
    i: int,
    x: PartialRun,
)
    requires
        0 <= p <= prev.len(),
        0 <= i < runs.len(),
        x == runs[i],
        sorted_by(order, prev),
        stable_pick(order, runs, prev, prev_idx),
        forall|k: int| 0 <= k < prev_idx.len() ==> #[trigger] prev_idx[k] < i,
        forall|k: int| 0 <= k < p ==> !precedes(order, x, #[trigger] prev[k]),
        forall|k: int| p <= k < prev.len() ==> !precedes(order, #[trigger] prev[k], x),
        forall|k: int| p <= k < prev.len() ==> precedes(order, x, #[trigger] prev[k]),
    ensures
        sorted_by(order, prev.insert(p, x)),
        stable_pick(order, runs, prev.insert(p, x), prev_idx.insert(p, i)),
        forall|k: int| 0 <= k < prev_idx.insert(p, i).len() ==> #[trigger] prev_idx.insert(p, i)[k] < i + 1,
{
    let now = prev.insert(p, x);
    let ni = prev_idx.insert(p, i);
    assert forall|a: int, b: int| 0 <= a < b < now.len() implies !precedes(order, #[trigger] now[b], #[trigger] now[a]) by {
        if a < p && b == p {
        } else if a < p && b > p {
            assert(now[b] == prev[b - 1]);
        } else if a == p {
            assert(now[b] == prev[b - 1]);
        } else if b < p {
        } else {
            assert(now[a] == prev[a - 1]);
            assert(now[b] == prev[b - 1]);
        }
    }
    assert forall|k: int| 0 <= k < ni.len() implies 0 <= #[trigger] ni[k] < runs.len() && now[k] == runs[ni[k]] by {
        if k < p {
            assert(ni[k] == prev_idx[k] && now[k] == prev[k]);
        } else if k > p {
            assert(ni[k] == prev_idx[k - 1] && now[k] == prev[k - 1]);
        }
    }
    assert forall|a: int, b: int| 0 <= a < b < ni.len() implies #[trigger] ni[a] != #[trigger] ni[b] by {
        let pa = if a < p { a } else { a - 1 };
        let pb = if b < p { b } else { b - 1 };
        if a != p && b != p {
            assert(ni[a] == prev_idx[pa] && ni[b] == prev_idx[pb]);
        } else if a == p {
            assert(ni[b] == prev_idx[pb]);
        } else {
            assert(ni[a] == prev_idx[pa]);
        }
    }
    assert forall|a: int, b: int|
        0 <= a < b < now.len() && !precedes(order, now[b], now[a]) && !precedes(order, now[a], now[b]) implies #[trigger] ni[a]
        < #[trigger] ni[b] by {
        if a < p && b == p {
            assert(ni[a] == prev_idx[a]);
        } else if a < p && b > p {
            assert(ni[a] == prev_idx[a] && ni[b] == prev_idx[b - 1]);
            assert(now[a] == prev[a] && now[b] == prev[b - 1]);
        } else if a == p {
            assert(now[b] == prev[b - 1]);
        } else if b < p {
            assert(ni[a] == prev_idx[a] && ni[b] == prev_idx[b]);
            assert(now[a] == prev[a] && now[b] == prev[b]);
        } else {
            assert(ni[a] == prev_idx[a - 1] && ni[b] == prev_idx[b - 1]);
            assert(now[a] == prev[a - 1] && now[b] == prev[b - 1]);
        }
    }
    assert forall|k: int| 0 <= k < ni.len() implies #[trigger] ni[k] < i + 1 by {
        if k < p {
            assert(ni[k] == prev_idx[k]);
        } else if k > p {
            assert(ni[k] == prev_idx[k - 1]);
        }
    }
}

/// The player a `user` route parameter selects.
pub fn player_key(user: &Option<String>) -> (r: Option<i64>)
    ensures
        r == spec_player_key(opt_text(*user)),
{
    match user {
        None => None,
        Some(s) => Some(
            match parse_i64(s.as_str()) {
                Some(v) => v,
                None => -1,
            },
        ),
    }
}

/// The runs a leaderboard entry lists, before sorting: those of the selected player
/// (all runs without one) that the filter keeps.
pub open spec fn listed_runs(
    runs: Seq<PartialRun>,
    user: Option<Seq<char>>,
    filter_key: Option<Seq<char>>,
) -> Seq<PartialRun> {
    let mine = of_player(runs, spec_player_key(user), runs.len() as int);
    kept(mine, spec_run_filter(filter_key), mine.len() as int)
}

/// The runs of numbered entries.
pub open spec fn entry_seq(entries: Seq<(usize, PartialRun)>) -> Seq<PartialRun> {
    entries.map_values(|e: (usize, PartialRun)| e.1)
}

/// The numbered runs of a leaderboard entry: the runs of a section (oldest first),
/// narrowed to the player named by `user`, filtered by `filter_key`, sorted by
/// `sort_key` and numbered from 0.
pub fn entry_runs(
    runs: &Vec<PartialRun>,
    user: Option<String>,
    filter_key: Option<String>,
    sort_key: Option<String>,
) -> (r: Vec<(usize, PartialRun)>)
    requires
        runs_wf(runs@),
    ensures
        r@.len() == listed_runs(runs@, opt_text(user), opt_text(filter_key)).len(),
        forall|k: int| 0 <= k < r@.len() ==> (#[trigger] r@[k]).0 == k,
        entry_seq(r@).to_multiset() == listed_runs(
            runs@,
            opt_text(user),
            opt_text(filter_key),
        ).to_multiset(),
        sorted_by(spec_sort(opt_text(sort_key)), entry_seq(r@)),
{
    let key = player_key(&user);
    let mine = select_player(runs, key);
    let mode = run_filter(&filter_key);
    let chosen = filter_runs(&mine, mode);
    let order = sort(sort_key);
    let sorted = sort_runs(order, chosen);
    let mut out: Vec<(usize, PartialRun)> = Vec::new();
    let mut k: usize = 0;
    while k < sorted.len()
        invariant
            k <= sorted@.len(),
            out@.len() == k,
            forall|j: int| 0 <= j < k ==> (#[trigger] out@[j]).0 == j && out@[j].1 == sorted@[j],
        decreases sorted@.len() - k,
    {
        out.push((k, sorted[k].clone()));
        k = k + 1;
    }
    proof {
        assert(entry_seq(out@) =~= sorted@);
        vstd::seq_lib::to_multiset_len(sorted@);
        vstd::seq_lib::to_multiset_len(chosen@);
    }
    out
}

/// Each kept run is one of the first `n` runs, and the kept runs keep their order:
/// the `k`-th kept run is run `idx[k]` with `idx` increasing.
proof fn lemma_kept_indices(runs: Seq<PartialRun>, mode: RunFilter, n: int) -> (idx: Seq<int>)
    requires
        0 <= n <= runs.len(),
    ensures
        idx.len() == kept(runs, mode, n).len(),
        forall|k: int|
            0 <= k < idx.len() ==> 0 <= #[trigger] idx[k] < n && keeps(runs, mode, idx[k])
                && kept(runs, mode, n)[k] == runs[idx[k]],
        forall|a: int, b: int| 0 <= a < b < idx.len() ==> #[trigger] idx[a] < #[trigger] idx[b],
    decreases n,
{
    if n == 0 {
        Seq::empty()
    } else {
        let prev = lemma_kept_indices(runs, mode, n - 1);
        if keeps(runs, mode, n - 1) {
            prev.push(n - 1)
        } else {
            prev
        }
    }
}

/// Filtered by `was_wr`, a section lists the history of its record: every listed run
/// beats the ceiling and is faster than every run listed before it.
pub proof fn lemma_record_history(runs: Seq<PartialRun>, a: int, b: int)
    requires
        0 <= a < b < kept(runs, RunFilter::WasWr, runs.len() as int).len(),
    ensures
        kept(runs, RunFilter::WasWr, runs.len() as int)[b].time.value() < kept(
            runs,
            RunFilter::WasWr,
            runs.len() as int,
        )[a].time.value(),
        kept(runs, RunFilter::WasWr, runs.len() as int)[b].time.value() < ceiling_value(),
{
    let idx = lemma_kept_indices(runs, RunFilter::WasWr, runs.len() as int);
    assert(idx[a] < idx[b]);
    assert(beats_all_before(runs, idx[b]));
    assert(runs[idx[a]] == runs[idx[a]]);
}

/// Filtered by `was_pb`, a section lists the history of each player's personal best:
/// every listed run beats the ceiling and is faster than every run of the same player
/// listed before it.
pub proof fn lemma_personal_best_history(runs: Seq<PartialRun>, a: int, b: int)
    requires
        0 <= a < b < kept(runs, RunFilter::WasPb, runs.len() as int).len(),
        kept(runs, RunFilter::WasPb, runs.len() as int)[a].user.user_id == kept(
            runs,
            RunFilter::WasPb,
            runs.len() as int,
        )[b].user.user_id,
    ensures
        kept(runs, RunFilter::WasPb, runs.len() as int)[b].time.value() < kept(
            runs,
            RunFilter::WasPb,
            runs.len() as int,
        )[a].time.value(),
        kept(runs, RunFilter::WasPb, runs.len() as int)[b].time.value() < ceiling_value(),
{
    let idx = lemma_kept_indices(runs, RunFilter::WasPb, runs.len() as int);
    assert(idx[a] < idx[b]);
    assert(beats_own_before(runs, idx[b]));
    assert(runs[idx[a]] == runs[idx[a]]);
}

/// Without a filter other than the named ones, every run is listed.
pub proof fn lemma_unknown_filter_keeps_all(runs: Seq<PartialRun>, n: int)
    requires
        0 <= n <= runs.len(),
    ensures
        kept(runs, RunFilter::All, n) == runs.take(n),
    decreases n,
{
    if n > 0 {
        lemma_unknown_filter_keeps_all(runs, n - 1);
        assert(runs.take(n) =~= runs.take(n - 1).push(runs[n - 1]));
    }
}

/// The run at the head of an entry sorted by time (the one its header shows) is the
/// fastest of the listed runs.
pub proof fn lemma_head_is_fastest(entries: Seq<(usize, PartialRun)>, listed: Seq<PartialRun>, order: SortOrder, x: PartialRun)
    requires
        order == SortOrder::Time || order == SortOrder::TimeThenDate,
        entry_seq(entries).to_multiset() == listed.to_multiset(),
        sorted_by(order, entry_seq(entries)),
        listed.contains(x),
    ensures
        entries.len() > 0,
        entries[0].1.time.value() <= x.time.value(),
{
    broadcast use vstd::seq_lib::group_to_multiset_ensures;

    let s = entry_seq(entries);
    vstd::seq_lib::to_multiset_contains(listed, x);
    vstd::seq_lib::to_multiset_contains(s, x);
    assert(s.contains(x));
    let j = choose|j: int| 0 <= j < s.len() && s[j] == x;
    if j > 0 {
        assert(!precedes(order, s[j], s[0]));
    }
}

/// The runs a progress chart plots: the runs sorted oldest first (runs of the same instant
/// in their order), narrowed to the player
/// named by `user` (all players without one), of which each player's improvements on
/// their earlier runs.
pub fn chart_runs(runs: &Vec<PartialRun>, user: &Option<String>) -> (r: Vec<PartialRun>)
    requires
        runs_wf(runs@),
    ensures
        exists|s: Seq<PartialRun>, idx: Seq<int>|
            #![trigger sorted_by(SortOrder::Oldest, s), stable_pick(SortOrder::Oldest, runs@, s, idx)]
            s.to_multiset() == runs@.to_multiset() && sorted_by(SortOrder::Oldest, s) && stable_pick(
                SortOrder::Oldest,
                runs@,
                s,
                idx,
            ) && r@ == kept(
                of_player(s, spec_player_key(opt_text(*user)), s.len() as int),
                RunFilter::WasPb,
                of_player(s, spec_player_key(opt_text(*user)), s.len() as int).len() as int,
            ),
        runs_wf(r@),
{
    let copy = runs.clone();
    let sorted = sort_runs(SortOrder::Oldest, copy);
    let key = player_key(user);
    let mine = select_player(&sorted, key);
    let r = filter_runs(&mine, RunFilter::WasPb);
    proof {
        assert(sorted_by(SortOrder::Oldest, sorted@));
        assert(copy@ =~= runs@);
        let idx = choose|idx: Seq<int>| stable_pick(SortOrder::Oldest, copy@, sorted@, idx);
        assert(stable_pick(SortOrder::Oldest, runs@, sorted@, idx));
    }
    r
}

/// The upper bound of the times a chart's scale allows: 90 seconds.
pub open spec fn chart_cap() -> RunTime {
    RunTime { mantissa: 90, scale: 0 }
}

/// The lowest time of a chart's first `n` runs, starting from 90 seconds: a time replaces
/// the bound where it is lower.
pub open spec fn chart_min(runs: Seq<PartialRun>, n: int) -> RunTime
    decreases n,
{
    if n <= 0 {
        chart_cap()
    } else {
        let prev = chart_min(runs, n - 1);
        if runs[n - 1].time.value() < prev.value() {
            runs[n - 1].time
        } else {
            prev
        }
    }
}

/// The highest time of a chart's first `n` runs that is at most 90 seconds, starting from
/// zero: a time replaces the bound where it is higher and within the cap.
pub open spec fn chart_max(runs: Seq<PartialRun>, n: int) -> RunTime
    decreases n,
{
    if n <= 0 {
        RunTime { mantissa: 0, scale: 0 }
    } else {
        let prev = chart_max(runs, n - 1);
        if runs[n - 1].time.value() > prev.value() && runs[n - 1].time.value() <= chart_cap().value() {
            runs[n - 1].time
        } else {
            prev
        }
    }
}

/// The bounds of a chart's time axis: the lowest time (90 seconds at most) and the highest
/// time within 90 seconds (zero at least).
pub fn chart_bounds(runs: &Vec<PartialRun>) -> (r: (RunTime, RunTime))
    requires
        runs_wf(runs@),
    ensures
        r.0 == chart_min(runs@, runs@.len() as int),
        r.1 == chart_max(runs@, runs@.len() as int),
{
    let cap = RunTime { mantissa: 90, scale: 0 };
    let mut min = cap;
    let mut max = RunTime { mantissa: 0, scale: 0 };
    for i in 0..runs.len()
        invariant
            runs_wf(runs@),
            cap == chart_cap(),
            min == chart_min(runs@, i as int),
            max == chart_max(runs@, i as int),
            min.wf(),
            max.wf(),
    {
        let t = runs[i].time;
        proof {
            assert(runs@[i as int].wf());
        }
        if time_lt(&t, &min) {
            min = t;
        }
        if time_lt(&max, &t) && !time_lt(&cap, &t) {
            max = t;
        }
    }
    (min, max)
}

/// The chart's bounds hold its runs: no run is faster than the lower bound, which is at
/// most 90 seconds, and no run within 90 seconds is slower than the upper bound.
pub proof fn lemma_chart_bounds_hold(runs: Seq<PartialRun>, n: int)
    requires
        0 <= n <= runs.len(),
    ensures
        chart_min(runs, n).value() <= chart_cap().value(),
        forall|k: int| 0 <= k < n ==> chart_min(runs, n).value() <= (#[trigger] runs[k]).time.value(),
        forall|k: int| 0 <= k < n && runs[k].time.value() <= chart_cap().value() ==> (#[trigger] runs[k]).time.value() <= chart_max(runs, n).value(),
    decreases n,
{
    if n > 0 {
        lemma_chart_bounds_hold(runs, n - 1);
    }
}

/// The bounds of a chart's time axis: the lowest time (90 seconds at most) rounded down
/// to a tenth of a second, and the highest time within 90 seconds (zero at least)
/// rounded up to a tenth.
pub fn chart_axis(runs: &Vec<PartialRun>) -> (r: (RunTime, RunTime))
    requires
        runs_wf(runs@),
    ensures
        r.0 == crate::time::dp_rounded(chart_min(runs@, runs@.len() as int), 1, false),
        r.1 == crate::time::dp_rounded(chart_max(runs@, runs@.len() as int), 1, true),
{
    let (min, max) = chart_bounds(runs);
    proof {
        lemma_chart_bounds_wf(runs@, runs@.len() as int);
    }
    (crate::time::round_dp(&min, 1, false), crate::time::round_dp(&max, 1, true))
}

/// The bounds of a chart are well formed times.
proof fn lemma_chart_bounds_wf(runs: Seq<PartialRun>, n: int)
    requires
        runs_wf(runs),
        0 <= n <= runs.len(),
    ensures
        chart_min(runs, n).wf(),
        chart_max(runs, n).wf(),
    decreases n,
{
    if n > 0 {
        lemma_chart_bounds_wf(runs, n - 1);
        assert(runs[n - 1].wf());
    }
}

/// Some series is named `name` and holds position `j`.
pub open spec fn in_series(series: Seq<(String, Vec<usize>)>, name: Seq<char>, j: int) -> bool {
    exists|k: int| 0 <= k < series.len() && (#[trigger] series[k]).0@ == name && series[k].1@.contains(j as usize)
}

/// The series of a chart: for each player, by name, the positions of their runs, in
/// order; each player once.
pub open spec fn series_of(runs: Seq<PartialRun>, series: Seq<(String, Vec<usize>)>, n: int) -> bool {
    &&& forall|a: int, b: int| 0 <= a < b < series.len() ==> #[trigger] series[a].0@ != #[trigger] series[b].0@
    &&& forall|k: int| 0 <= k < series.len() ==> (#[trigger] series[k]).1@.len() > 0
    &&& forall|k: int, x: int|
        0 <= k < series.len() && 0 <= x < series[k].1@.len() ==> #[trigger] series[k].1@[x] < n && runs[
            series[k].1@[x] as int
        ].user.username@ == series[k].0@
    &&& forall|k: int, x: int, y: int|
        0 <= k < series.len() && 0 <= x < y < series[k].1@.len() ==> #[trigger] series[k].1@[x] < #[trigger] series[k].1@[y]
    &&& forall|j: int| 0 <= j < n ==> #[trigger] in_series(series, runs[j].user.username@, j)
}

/// The series of a chart: one per player (by name), holding the positions of that
/// player's runs in order.
pub fn chart_series(runs: &Vec<PartialRun>) -> (r: Vec<(String, Vec<usize>)>)
    ensures
        series_of(runs@, r@, runs@.len() as int),
{
    let mut series: Vec<(String, Vec<usize>)> = Vec::new();
    for i in 0..runs.len()
        invariant
            series_of(runs@, series@, i as int),
    {
        let name = &runs[i].user.username;
        let mut k: usize = 0;
        while k < series.len() && !crate::text::str_eq(series[k].0.as_str(), name.as_str())
            invariant
                k <= series@.len(),
                forall|m: int| 0 <= m < k ==> (#[trigger] series@[m]).0@ != name@,
            decreases series@.len() - k,
        {
            k = k + 1;
        }
        let found = k < series.len();
        let ghost prev = series@;
        if found {
            let mut entry = series.remove(k);
            entry.1.push(i);
            let ghost updated = entry;
            series.insert(k, entry);
            proof {
                assert(series@ =~= prev.update(k as int, updated));
                assert(updated.0@ == name@);
                assert(updated.1@ =~= prev[k as int].1@.push(i));
                assert forall|j: int| 0 <= j < i + 1 implies #[trigger] in_series(series@, runs@[j].user.username@, j) by {
                    if j < i {
                        assert(in_series(prev, runs@[j].user.username@, j));
                        let m = choose|m: int| 0 <= m < prev.len() && (#[trigger] prev[m]).0@ == runs@[j].user.username@ && prev[m].1@.contains(j as usize);
                        let w = choose|w: int| 0 <= w < prev[m].1@.len() && prev[m].1@[w] == j as usize;
                        if m == k {
                            assert(series@[m].1@[w] == j as usize);
                        } else {
                            assert(series@[m] == prev[m]);
                        }
                    } else {
                        let last = series@[k as int].1@.len() - 1;
                        assert(series@[k as int].1@[last] == i);
                    }
                }
            }
        } else {
            let mut positions: Vec<usize> = Vec::new();
            positions.push(i);
            series.push((name.clone(), positions));
            proof {
                assert forall|j: int| 0 <= j < i + 1 implies #[trigger] in_series(series@, runs@[j].user.username@, j) by {
                    if j < i {
                        assert(in_series(prev, runs@[j].user.username@, j));
                        let m = choose|m: int| 0 <= m < prev.len() && (#[trigger] prev[m]).0@ == runs@[j].user.username@ && prev[m].1@.contains(j as usize);
                        assert(series@[m] == prev[m]);
                    } else {
                        assert(series@[prev.len() as int].1@[0] == i);
                    }
                }
            }
        }
    }
    series
}

} // verus!
